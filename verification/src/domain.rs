//! The daemon's addressing: the session domain of the current user,
//! written `gui/<uid>`, and the `domain/label` target strings.

use vstd::prelude::*;
use vstd::string::StringExecFns;

verus! {

/// The character for one decimal digit.
pub open spec fn spec_digit_char(d: int) -> char {
    if d == 0 {
        '0'
    } else if d == 1 {
        '1'
    } else if d == 2 {
        '2'
    } else if d == 3 {
        '3'
    } else if d == 4 {
        '4'
    } else if d == 5 {
        '5'
    } else if d == 6 {
        '6'
    } else if d == 7 {
        '7'
    } else if d == 8 {
        '8'
    } else {
        '9'
    }
}

/// The decimal digits of `n`, most significant first.
pub open spec fn spec_decimal(n: nat) -> Seq<char>
    decreases n,
{
    if n < 10 {
        seq![spec_digit_char(n as int)]
    } else {
        spec_decimal(n / 10).push(spec_digit_char((n % 10) as int))
    }
}

fn digit_str(d: u32) -> (r: &'static str)
    requires
        d < 10,
    ensures
        r@ == seq![spec_digit_char(d as int)],
{
    if d == 0 {
        proof {
            reveal_strlit("0");
            assert("0"@ =~= seq![spec_digit_char(d as int)]);
        }
        "0"
    } else if d == 1 {
        proof {
            reveal_strlit("1");
            assert("1"@ =~= seq![spec_digit_char(d as int)]);
        }
        "1"
    } else if d == 2 {
        proof {
            reveal_strlit("2");
            assert("2"@ =~= seq![spec_digit_char(d as int)]);
        }
        "2"
    } else if d == 3 {
        proof {
            reveal_strlit("3");
            assert("3"@ =~= seq![spec_digit_char(d as int)]);
        }
        "3"
    } else if d == 4 {
        proof {
            reveal_strlit("4");
            assert("4"@ =~= seq![spec_digit_char(d as int)]);
        }
        "4"
    } else if d == 5 {
        proof {
            reveal_strlit("5");
            assert("5"@ =~= seq![spec_digit_char(d as int)]);
        }
        "5"
    } else if d == 6 {
        proof {
            reveal_strlit("6");
            assert("6"@ =~= seq![spec_digit_char(d as int)]);
        }
        "6"
    } else if d == 7 {
        proof {
            reveal_strlit("7");
            assert("7"@ =~= seq![spec_digit_char(d as int)]);
        }
        "7"
    } else if d == 8 {
        proof {
            reveal_strlit("8");
            assert("8"@ =~= seq![spec_digit_char(d as int)]);
        }
        "8"
    } else {
        proof {
            reveal_strlit("9");
            assert("9"@ =~= seq![spec_digit_char(d as int)]);
        }
        "9"
    }
}

/// Append the decimal form of `n`.
fn push_decimal(n: u32, out: &mut String)
    ensures
        final (out)@ == old(out)@ + spec_decimal(n as nat),
    decreases n,
{
    if n < 10 {
        out.append(digit_str(n));
        proof {
            assert(out@ =~= old(out)@ + spec_decimal(n as nat));
        }
    } else {
        push_decimal(n / 10, out);
        out.append(digit_str(n % 10));
        proof {
            assert(out@ =~= old(out)@ + spec_decimal(n as nat));
        }
    }
}

/// The session domain of the user with the given id.
pub open spec fn spec_gui_domain(uid: u32) -> Seq<char> {
    "gui/"@ + spec_decimal(uid as nat)
}

/// Write the session domain of the user with the given id.
pub fn format_gui_domain(uid: u32) -> (r: String)
    ensures
        r@ == spec_gui_domain(uid),
{
    let mut s = String::from_str("gui/");
    push_decimal(uid, &mut s);
    s
}

/// Relies on users::get_current_uid: the numeric id of the user this
/// process runs as. Nothing is assumed of the value.
#[verifier::external_body]
fn current_uid() -> u32 {
    users::get_current_uid()
}

/// The session domain of the current user. Which user that is depends on
/// the process, so only the shape of the result is promised.
pub fn current_gui_domain() -> (r: String)
    ensures
        exists|uid: u32| r@ == spec_gui_domain(uid),
{
    let uid = current_uid();
    let r = format_gui_domain(uid);
    proof {
        assert(r@ == spec_gui_domain(uid));
    }
    r
}

/// The daemon's name for one service of one session: `domain/label`.
pub open spec fn spec_service_target(domain: Seq<char>, label: Seq<char>) -> Seq<char> {
    domain + "/"@ + label
}

/// Write the `domain/label` target.
pub fn format_service_target(domain: &str, label: &str) -> (r: String)
    ensures
        r@ == spec_service_target(domain@, label@),
{
    let mut s = String::from_str(domain);
    s.append("/");
    s.append(label);
    s
}

/// The daemon invocation that asks whether a label is loaded in a
/// session: a `print` query on the `domain/label` target.
pub fn print_query_invocation(domain: &str, label: &str) -> (r: Vec<String>)
    ensures
        r.deep_view() == seq!["print"@, spec_service_target(domain@, label@)],
{
    let mut args: Vec<String> = Vec::new();
    args.push(String::from_str("print"));
    args.push(format_service_target(domain, label));
    proof {
        assert(args.deep_view() =~= seq!["print"@, spec_service_target(domain@, label@)]);
    }
    args
}

} // verus!
