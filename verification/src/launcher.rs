//! Building the launch command: executable fallback and argument vector.

use vstd::prelude::*;
use vstd::string::StringExecFns;

verus! {

/// The entry file handed to the child.
pub open spec fn main_entry_text() -> Seq<char> {
    "main.js"@
}

/// The flag that precedes the port number in the argument vector.
pub open spec fn port_flag_text() -> Seq<char> {
    "--port"@
}

/// The platform-default command used when no executable path is given.
pub open spec fn default_exe_text() -> Seq<char> {
    "node"@
}

/// The character of a single decimal digit.
pub open spec fn digit_char(d: nat) -> char {
    if d == 0 {
        '0'
    } else if d == 1 {
        '1'
    } else if d == 2 {
        '2'
    } else if d == 3 {
        '3'
    } else if d == 4 {
        '4'
    } else if d == 5 {
        '5'
    } else if d == 6 {
        '6'
    } else if d == 7 {
        '7'
    } else if d == 8 {
        '8'
    } else {
        '9'
    }
}

/// The decimal digits of `n`, most significant first, with no leading zero
/// except for `n == 0` itself.
pub open spec fn decimal_digits(n: nat) -> Seq<char>
    decreases n,
{
    if n < 10 {
        seq![digit_char(n)]
    } else {
        decimal_digits(n / 10) + seq![digit_char(n % 10)]
    }
}

fn digit_str(d: u16) -> (s: &'static str)
    requires
        d < 10,
    ensures
        s@ == seq![digit_char(d as nat)],
{
    proof {
        reveal_strlit("0");
        reveal_strlit("1");
        reveal_strlit("2");
        reveal_strlit("3");
        reveal_strlit("4");
        reveal_strlit("5");
        reveal_strlit("6");
        reveal_strlit("7");
        reveal_strlit("8");
        reveal_strlit("9");
    }
    let s: &'static str = match d {
        0 => "0",
        1 => "1",
        2 => "2",
        3 => "3",
        4 => "4",
        5 => "5",
        6 => "6",
        7 => "7",
        8 => "8",
        _ => "9",
    };
    proof {
        assert(s@ =~= seq![digit_char(d as nat)]);
    }
    s
}

/// The port number written in decimal, exactly as it appears in the
/// argument vector.
pub fn port_text(port: u16) -> (s: String)
    ensures
        s@ == decimal_digits(port as nat),
    decreases port,
{
    if port < 10 {
        digit_str(port).to_owned()
    } else {
        let mut s = port_text(port / 10);
        s.append(digit_str(port % 10));
        s
    }
}

/// The executable that a start request runs: an empty path falls back to
/// the platform default, any other path is taken as given.
pub fn resolve_exe(exe: String) -> (r: String)
    ensures
        exe@.len() == 0 ==> r@ == default_exe_text(),
        exe@.len() > 0 ==> r@ == exe@,
{
    if exe.as_str().is_empty() {
        "node".to_owned()
    } else {
        exe
    }
}

/// The argument vector of a launch at the given port: the main entry file,
/// the port flag, and the port in decimal.
pub fn spawn_args(port: u16) -> (args: Vec<String>)
    ensures
        args@.len() == 3,
        args@[0]@ == main_entry_text(),
        args@[1]@ == port_flag_text(),
        args@[2]@ == decimal_digits(port as nat),
{
    let mut args: Vec<String> = Vec::new();
    args.push("main.js".to_owned());
    args.push("--port".to_owned());
    args.push(port_text(port));
    args
}

} // verus!
