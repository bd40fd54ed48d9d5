use vstd::prelude::*;

verus! {

/// Everything that can go wrong while handling one input line.
#[derive(Debug, Clone, PartialEq, Eq)]
pub enum ShellError {
    /// A quote was opened and never closed.
    MismatchedQuotes,
    /// The command name matched no executable file.
    CommandNotFound,
    /// The target of `cd` does not exist or is not a directory.
    CdInvalidPath,
    /// `cd` was given more than one target.
    CdTooManyArguments,
    /// Changing the working directory failed; carries the system's reason.
    CdFailed(String),
    /// The child process could not be started; carries the full report.
    LaunchFailed(String),
    /// The child process ran and exited with a non-zero status.
    ExitedWithCode(i32),
}

/// The decimal digit for `d < 10`.
pub open spec fn digit_char(d: nat) -> char {
    seq!['0', '1', '2', '3', '4', '5', '6', '7', '8', '9'][d as int]
}

/// The decimal digits of `n`, most significant first, without leading zeros.
pub open spec fn digits(n: nat) -> Seq<char>
    decreases n,
{
    if n < 10 {
        seq![digit_char(n)]
    } else {
        digits(n / 10).push(digit_char(n % 10))
    }
}

/// `n` written in decimal, with a leading `-` when it is negative.
pub open spec fn decimal(n: int) -> Seq<char> {
    if n < 0 {
        seq!['-'] + digits((-n) as nat)
    } else {
        digits(n as nat)
    }
}

/// The line printed for an error.
pub open spec fn message_of(e: ShellError) -> Seq<char> {
    match e {
        ShellError::MismatchedQuotes => "error: mismatched quotes"@,
        ShellError::CommandNotFound => "error: command not found."@,
        ShellError::CdInvalidPath => "error: cd failed - invalid path."@,
        ShellError::CdTooManyArguments => "error: cd failed - please specify only one target path."@,
        ShellError::CdFailed(reason) => "error: cd failed - "@ + reason@ + "."@,
        ShellError::LaunchFailed(report) => report@,
        ShellError::ExitedWithCode(code) => "error: command exited with code "@ + decimal(code as int),
    }
}

/// Writes `n` in decimal.
pub fn decimal_string(n: i32) -> (r: String)
    ensures
        r@ == decimal(n as int),
{
    let all: &str = "0123456789";
    proof {
        reveal_strlit("0123456789");
        assert(all@ =~= seq!['0', '1', '2', '3', '4', '5', '6', '7', '8', '9']);
    }
    let ghost n0: nat = if n < 0 { (-(n as int)) as nat } else { n as nat };
    let mut m: u32 = if n < 0 { (-(n as i64)) as u32 } else { n as u32 };
    assert(m == n0);
    let d = (m % 10) as usize;
    let mut acc = String::from_str(all.substring_char(d, d + 1));
    assert(all@.subrange(d as int, d + 1) =~= seq![digit_char((m % 10) as nat)]);
    proof {
        if m >= 10 {
            assert(digits(m as nat) == digits((m / 10) as nat).push(digit_char((m % 10) as nat)));
            assert(digits(m as nat) =~= digits((m / 10) as nat) + acc@);
        }
    }
    m = m / 10;
    while m > 0
        invariant
            all@ == seq!['0', '1', '2', '3', '4', '5', '6', '7', '8', '9'],
            m == 0 ==> digits(n0) == acc@,
            m > 0 ==> digits(n0) == digits(m as nat) + acc@,
        decreases m,
    {
        let d = (m % 10) as usize;
        let prefix = String::from_str(all.substring_char(d, d + 1));
        assert(all@.subrange(d as int, d + 1) =~= seq![digit_char((m % 10) as nat)]);
        let ghost old_acc = acc@;
        acc = prefix.concat(acc.as_str());
        proof {
            if m >= 10 {
                assert(digits(m as nat) == digits((m / 10) as nat).push(digit_char((m % 10) as nat)));
                assert(digits(m as nat) + old_acc =~= digits((m / 10) as nat) + acc@);
            } else {
                assert(digits(m as nat) + old_acc =~= acc@);
            }
        }
        m = m / 10;
    }
    if n < 0 {
        let sign = String::from_str("-");
        proof {
            reveal_strlit("-");
        }
        sign.concat(acc.as_str())
    } else {
        acc
    }
}

impl ShellError {
    /// The line that reports this error to the user.
    pub fn message(&self) -> (r: String)
        ensures
            r@ == message_of(*self),
    {
        match self {
            ShellError::MismatchedQuotes => String::from_str("error: mismatched quotes"),
            ShellError::CommandNotFound => String::from_str("error: command not found."),
            ShellError::CdInvalidPath => String::from_str("error: cd failed - invalid path."),
            ShellError::CdTooManyArguments => String::from_str(
                "error: cd failed - please specify only one target path.",
            ),
            ShellError::CdFailed(reason) => {
                let mut s = String::from_str("error: cd failed - ");
                s.append(reason.as_str());
                s.append(".");
                s
            },
            ShellError::LaunchFailed(report) => report.clone(),
            ShellError::ExitedWithCode(code) => {
                let mut s = String::from_str("error: command exited with code ");
                let digits = decimal_string(*code);
                s.append(digits.as_str());
                s
            },
        }
    }
}

/// What the exit status of a finished child process means: an exit code other than 0 is
/// an error carrying that code; a 0 code, or no code at all (the child was stopped by a
/// signal), is success.
pub fn check_exit_status(code: Option<i32>) -> (r: Result<(), ShellError>)
    ensures
        match code {
            Some(c) => if c != 0 {
                r == Err::<(), ShellError>(ShellError::ExitedWithCode(c))
            } else {
                r == Ok::<(), ShellError>(())
            },
            None => r == Ok::<(), ShellError>(()),
        },
{
    match code {
        Some(c) => if c != 0 {
            Err(ShellError::ExitedWithCode(c))
        } else {
            Ok(())
        },
        None => Ok(()),
    }
}

} // verus!
