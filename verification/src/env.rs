//! Decisions driven by environment values: terminal capabilities, the
//! run identity and the observability paths. The values arrive as plain
//! optional strings; reading the actual environment is the caller's
//! concern.

use crate::textutil::{dec_seq, trim_of, trim_str, trimmed_empty, str_eq, u64_to_dec};
use vstd::prelude::*;
use vstd::string::StringExecFns;

verus! {

/// What the terminal session enables.
#[derive(Clone, Copy, PartialEq, Eq, Structural, Debug)]
pub struct TerminalCaps {
    pub color: bool,
    pub unicode: bool,
    pub mouse: bool,
    pub alt_screen: bool,
}

/// ASCII lowering of one character.
pub open spec fn lower_ascii(c: char) -> char {
    if 65 <= c as u32 <= 90 {
        (((c as u32) + 32) as u8) as char
    } else {
        c
    }
}

/// ASCII case-insensitive equality.
pub open spec fn eq_ignore_ascii_case_spec(a: Seq<char>, b: Seq<char>) -> bool {
    a.map_values(|c: char| lower_ascii(c)) == b.map_values(|c: char| lower_ascii(c))
}

fn lower_char(c: char) -> (r: char)
    ensures
        r == lower_ascii(c),
{
    let code = c as u32;
    if 65 <= code && code <= 90 {
        ((code + 32) as u8) as char
    } else {
        c
    }
}

/// ASCII case-insensitive comparison, character by character.
pub fn eq_ignore_ascii_case(a: &str, b: &str) -> (r: bool)
    ensures
        r == eq_ignore_ascii_case_spec(a@, b@),
{
    let an = a.unicode_len();
    let bn = b.unicode_len();
    if an != bn {
        proof {
            assert(a@.map_values(|c: char| lower_ascii(c)).len() == an);
            assert(b@.map_values(|c: char| lower_ascii(c)).len() == bn);
        }
        return false;
    }
    let mut i: usize = 0;
    while i < an
        invariant
            i <= an,
            an == a@.len(),
            an == b@.len(),
            forall|k: int| 0 <= k < i ==> lower_ascii(a@[k]) == lower_ascii(b@[k]),
        decreases an - i,
    {
        if lower_char(a.get_char(i)) != lower_char(b.get_char(i)) {
            proof {
                assert(a@.map_values(|c: char| lower_ascii(c))[i as int] != b@.map_values(
                    |c: char| lower_ascii(c),
                )[i as int]);
            }
            return false;
        }
        i += 1;
    }
    proof {
        assert(a@.map_values(|c: char| lower_ascii(c)) =~= b@.map_values(
            |c: char| lower_ascii(c),
        ));
    }
    true
}

/// Whether a mouse-capture value switches the feature on.
pub open spec fn mouse_enabled(v: Seq<char>) -> bool {
    v == "1"@ || eq_ignore_ascii_case_spec(v, "true"@)
}

/// Capability decisions from the four environment values: colour is on
/// unless the no-colour value has substance; Unicode and the alternate
/// screen are on unless their values are the literal zero; mouse capture
/// is on only for an affirmative value.
pub fn caps_from_env(
    no_color: Option<&str>,
    unicode: Option<&str>,
    mouse: Option<&str>,
    alt_screen: Option<&str>,
) -> (c: TerminalCaps)
    ensures
        c.color == !(match no_color.deep_view() {
            Some(v) => trim_of(v).len() != 0,
            None => false,
        }),
        c.unicode == (match unicode.deep_view() {
            Some(v) => v != "0"@,
            None => true,
        }),
        c.mouse == (match mouse.deep_view() {
            Some(v) => mouse_enabled(v),
            None => false,
        }),
        c.alt_screen == (match alt_screen.deep_view() {
            Some(v) => v != "0"@,
            None => true,
        }),
{
    let color = match no_color {
        Some(v) => trimmed_empty(v),
        None => true,
    };
    let unicode_on = match unicode {
        Some(v) => !str_eq(v, "0"),
        None => true,
    };
    let mouse_on = match mouse {
        Some(v) => str_eq(v, "1") || eq_ignore_ascii_case(v, "true"),
        None => false,
    };
    let alt_on = match alt_screen {
        Some(v) => !str_eq(v, "0"),
        None => true,
    };
    TerminalCaps { color, unicode: unicode_on, mouse: mouse_on, alt_screen: alt_on }
}

/// The generated run identity for a session without an override.
pub open spec fn fallback_run_id(now_ms: u64, pid: u64) -> Seq<char> {
    "run-"@ + dec_seq(now_ms as nat) + "-"@ + dec_seq(pid as nat)
}

/// The session's run identity: a non-blank override wins, trimmed;
/// otherwise an identity built from the clock and the process id.
pub fn resolve_run_id(env_value: Option<&str>, now_ms: u64, pid: u64) -> (r: String)
    ensures
        r@ == match env_value.deep_view() {
            Some(v) => if trim_of(v).len() != 0 {
                trim_of(v)
            } else {
                fallback_run_id(now_ms, pid)
            },
            None => fallback_run_id(now_ms, pid),
        },
{
    match env_value {
        Some(v) => {
            let trimmed = trim_str(v);
            if trimmed.unicode_len() != 0 {
                return trimmed.to_owned();
            }
        },
        None => {},
    }
    let mut id = "run-".to_owned();
    let ts = u64_to_dec(now_ms);
    id.append(ts.as_str());
    id.append("-");
    let p = u64_to_dec(pid);
    id.append(p.as_str());
    id
}

/// A non-blank override, trimmed, or nothing.
pub fn path_override(env_value: Option<&str>) -> (r: Option<String>)
    ensures
        r.deep_view() == match env_value.deep_view() {
            Some(v) => if trim_of(v).len() != 0 {
                Some(trim_of(v))
            } else {
                None::<Seq<char>>
            },
            None => None::<Seq<char>>,
        },
{
    match env_value {
        Some(v) => {
            let trimmed = trim_str(v);
            if trimmed.unicode_len() != 0 {
                Some(trimmed.to_owned())
            } else {
                None
            }
        },
        None => None,
    }
}

/// The directory for session journals: the override or the default.
pub fn resolve_observability_dir(env_value: Option<&str>) -> (r: String)
    ensures
        r@ == match env_value.deep_view() {
            Some(v) => if trim_of(v).len() != 0 {
                trim_of(v)
            } else {
                ".cache/tui/install-v1/session-logs"@
            },
            None => ".cache/tui/install-v1/session-logs"@,
        },
{
    match path_override(env_value) {
        Some(p) => p,
        None => ".cache/tui/install-v1/session-logs".to_owned(),
    }
}

/// The cross-session snapshot file: the override or the default.
pub fn resolve_snapshot_path(env_value: Option<&str>) -> (r: String)
    ensures
        r@ == match env_value.deep_view() {
            Some(v) => if trim_of(v).len() != 0 {
                trim_of(v)
            } else {
                ".cache/tui/last-state.json"@
            },
            None => ".cache/tui/last-state.json"@,
        },
{
    match path_override(env_value) {
        Some(p) => p,
        None => ".cache/tui/last-state.json".to_owned(),
    }
}

} // verus!
