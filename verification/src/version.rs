//! Parsing a tool's version banner: the first line of `aria2 version
//! 1.37.0` or `ffmpeg version 4.4.1-essentials` yields the third
//! whitespace-separated word when the second is `version`, and the
//! placeholder `Unknown` otherwise.

use vstd::prelude::*;

use crate::strutil::{
    chars_of, match_at, match_at_exec, nonspace_run_end, nonspace_run_end_exec, skip_spaces,
    skip_spaces_exec, split_lines, split_lines_spec,
};

verus! {

/// The version a banner line names: its third whitespace-separated
/// word, when it has at least three words and the second is `version`;
/// the placeholder `Unknown` otherwise.
pub open spec fn banner_version_of(line: Seq<char>) -> Seq<char> {
    let a1 = skip_spaces(line, 0);
    let b1 = nonspace_run_end(line, a1);
    let a2 = skip_spaces(line, b1);
    let b2 = nonspace_run_end(line, a2);
    let a3 = skip_spaces(line, b2);
    let b3 = nonspace_run_end(line, a3);
    if b3 > a3 && line.subrange(a2, b2) == "version"@ {
        line.subrange(a3, b3)
    } else {
        "Unknown"@
    }
}

/// The version the whole `--version` output names: nothing when the
/// output has no line, else what its first line names.
pub open spec fn output_version_of(out: Seq<char>) -> Option<Seq<char>> {
    let lines = split_lines_spec(out);
    if lines.len() == 0 {
        None
    } else {
        Some(banner_version_of(lines[0]))
    }
}

/// Extracts the version from a tool's `--version` output, as
/// [`output_version_of`] describes.
pub fn version_from_output(out: &str) -> (r: Option<String>)
    ensures
        r.deep_view() == output_version_of(out@),
{
    let lines = split_lines(out);
    if lines.len() == 0 {
        return None;
    }
    let line = &lines[0];
    proof {
        assert(lines.deep_view()[0] == line@);
    }
    let v = chars_of(line.as_str());
    let kw = chars_of("version");
    proof {
        reveal_strlit("version");
        assert(kw@ =~= seq!['v', 'e', 'r', 's', 'i', 'o', 'n']);
        assert("version"@ =~= seq!['v', 'e', 'r', 's', 'i', 'o', 'n']);
    }
    let a1 = skip_spaces_exec(&v, 0);
    let b1 = nonspace_run_end_exec(&v, a1);
    let a2 = skip_spaces_exec(&v, b1);
    let b2 = nonspace_run_end_exec(&v, a2);
    let a3 = skip_spaces_exec(&v, b2);
    let b3 = nonspace_run_end_exec(&v, a3);
    let second_is_version = b2 - a2 == kw.len() && match_at_exec(&v, &kw, a2);
    proof {
        if second_is_version {
            assert(line@.subrange(a2 as int, b2 as int) =~= kw@);
        } else {
            if line@.subrange(a2 as int, b2 as int) == "version"@ {
                assert(b2 - a2 == kw@.len());
                assert(forall|j: int|
                    0 <= j < kw@.len() ==> line@[a2 + j] == line@.subrange(
                        a2 as int,
                        b2 as int,
                    )[j]);
            }
        }
    }
    if b3 > a3 && second_is_version {
        Some(line.substring_char(a3, b3).to_owned())
    } else {
        Some("Unknown".to_owned())
    }
}

} // verus!
