//! What the terminal hands to and takes from the shells it runs: the
//! environment of shell integration, and the output of agent commands.

use vstd::prelude::*;

use crate::input::{boundary_at, byte_len, char_utf8_len, lemma_byte_len_monotone, lemma_byte_len_take};
use crate::text::{chars_to_string, str_to_chars};

verus! {

broadcast use vstd::string::group_string_axioms;

/// Where the shell integration scripts are looked for, relative to the
/// directory of the executable, in this order.
pub fn shell_integration_candidates() -> (dirs: Vec<&'static str>)
    ensures
        dirs@.len() == 3,
        dirs@[0]@ == "shell-integration"@,
        dirs@[1]@ == "../share/minal/shell-integration"@,
        dirs@[2]@ == "../../shell-integration"@,
{
    vec!["shell-integration", "../share/minal/shell-integration", "../../shell-integration"]
}

/// The variables that tell a shell it runs in this terminal:
/// `TERM_PROGRAM` and `TERM_PROGRAM_VERSION`, then
/// `MINAL_SHELL_INTEGRATION` from the user's own setting when there is one,
/// else from the scripts directory that was found, else not at all.
pub open spec fn integration_vars(
    version: Seq<char>,
    user_dir: Option<Seq<char>>,
    found_dir: Option<Seq<char>>,
) -> Seq<(Seq<char>, Seq<char>)> {
    let base = seq![("TERM_PROGRAM"@, "minal"@), ("TERM_PROGRAM_VERSION"@, version)];
    match user_dir {
        Some(d) => base.push(("MINAL_SHELL_INTEGRATION"@, d)),
        None => match found_dir {
            Some(d) => base.push(("MINAL_SHELL_INTEGRATION"@, d)),
            None => base,
        },
    }
}

/// The variables as characters.
pub open spec fn vars_model(v: Seq<(String, String)>) -> Seq<(Seq<char>, Seq<char>)> {
    v.map_values(|p: (String, String)| (p.0@, p.1@))
}

/// The optional string as characters.
pub open spec fn opt_model(o: Option<String>) -> Option<Seq<char>> {
    match o {
        Some(s) => Some(s@),
        None => None,
    }
}

/// Builds the environment of shell integration from the program version,
/// the user's own `MINAL_SHELL_INTEGRATION` if set, and the scripts
/// directory found next to the executable, if any.
pub fn shell_integration_env_vars(
    version: &str,
    user_dir: Option<String>,
    found_dir: Option<String>,
) -> (vars: Vec<(String, String)>)
    ensures
        vars_model(vars@) == integration_vars(version@, opt_model(user_dir), opt_model(found_dir)),
{
    let mut vars: Vec<(String, String)> = Vec::new();
    vars.push(("TERM_PROGRAM".to_string(), "minal".to_string()));
    vars.push(("TERM_PROGRAM_VERSION".to_string(), version.to_string()));
    let ghost base = vars@;
    match user_dir {
        Some(d) => {
            vars.push(("MINAL_SHELL_INTEGRATION".to_string(), d));
        },
        None => match found_dir {
            Some(d) => {
                vars.push(("MINAL_SHELL_INTEGRATION".to_string(), d));
            },
            None => {},
        },
    }
    proof {
        assert(vars_model(base) =~= seq![
            ("TERM_PROGRAM"@, "minal"@),
            ("TERM_PROGRAM_VERSION"@, version@),
        ]);
        assert(vars_model(vars@) =~= integration_vars(
            version@,
            opt_model(user_dir),
            opt_model(found_dir),
        ));
    }
    vars
}

/// How many bytes of a command's output are kept.
pub const OUTPUT_LIMIT: usize = 50000;

/// A command's output as it is kept: whole when it has at most
/// `OUTPUT_LIMIT` bytes, else its first `OUTPUT_LIMIT` bytes followed by a
/// mark.
pub open spec fn kept_output(s: Seq<char>) -> Seq<char> {
    if byte_len(s) > OUTPUT_LIMIT {
        s.take(crate::input::char_index(s, OUTPUT_LIMIT as int)) + "...(truncated)"@
    } else {
        s
    }
}

/// Cuts a command's output down to `OUTPUT_LIMIT` bytes. Output that long
/// is cut at a character boundary.
pub fn truncate_output(s: &str) -> (kept: String)
    requires
        byte_len(s@) > OUTPUT_LIMIT ==> exists|k: int| boundary_at(s@, k, OUTPUT_LIMIT as int),
    ensures
        kept@ == kept_output(s@),
{
    let chars = str_to_chars(s);
    let ghost v = chars@;
    let n = chars.len();
    let mut i: usize = 0;
    let mut b: usize = 0;
    proof {
        assert(v.take(0) =~= Seq::<char>::empty());
    }
    while i < n && b < OUTPUT_LIMIT
        invariant
            v == chars@,
            n == v.len(),
            i <= n,
            b == byte_len(v.take(i as int)),
            b < OUTPUT_LIMIT + 4,
            i > 0 ==> byte_len(v.take(i - 1)) < OUTPUT_LIMIT,
        decreases n - i,
    {
        proof {
            lemma_byte_len_take(v, i as int);
        }
        b = b + char_utf8_len(chars[i]);
        i = i + 1;
    }
    proof {
        assert(v.take(n as int) =~= v);
    }
    if i == n && b <= OUTPUT_LIMIT {
        return s.to_string();
    }
    proof {
        lemma_byte_len_monotone(v, i as int, n as int);
        assert(byte_len(v) > OUTPUT_LIMIT);
        let k0 = choose|k: int| boundary_at(v, k, OUTPUT_LIMIT as int);
        assert(boundary_at(v, k0, OUTPUT_LIMIT as int));
        if (i as int) < k0 {
            lemma_byte_len_monotone(v, i as int, k0);
        } else if k0 < (i as int) {
            lemma_byte_len_monotone(v, k0, i - 1);
        }
        crate::input::lemma_boundary_unique(
            v,
            i as int,
            crate::input::char_index(v, OUTPUT_LIMIT as int),
            OUTPUT_LIMIT as int,
        );
    }
    let mut out: Vec<char> = Vec::new();
    let mut j: usize = 0;
    while j < i
        invariant
            v == chars@,
            i <= v.len(),
            j <= i,
            out@ == v.take(j as int),
        decreases i - j,
    {
        out.push(chars[j]);
        j = j + 1;
        proof {
            assert(out@ =~= v.take(j as int));
        }
    }
    let mut mark = str_to_chars("...(truncated)");
    out.append(&mut mark);
    chars_to_string(out.as_slice())
}

} // verus!
