//! How a child process ended.
use vstd::prelude::*;

use crate::error::bits_of;
use crate::foreign::{lossy, lossy_text};
use crate::text::{concat, decimal, push_decimal, push_signed_decimal, signed_decimal};

verus! {

/// The exit status of a child process.
#[derive(Debug)]
pub struct ExitStatus {
    code: u32,
    signal: Option<String>,
}

/// What an [`ExitStatus`] holds.
pub struct ExitStatusView {
    /// The exit code.
    pub code: u32,
    /// The name of the signal that ended the process, if one did.
    pub signal: Option<Seq<char>>,
}

impl View for ExitStatus {
    type V = ExitStatusView;

    closed spec fn view(&self) -> ExitStatusView {
        ExitStatusView {
            code: self.code,
            signal: match self.signal {
                Some(name) => Some(name@),
                None => None,
            },
        }
    }
}

/// Whether a status means success: no signal, and the code zero.
pub open spec fn is_success(status: ExitStatusView) -> bool {
    status.signal is None && status.code == 0
}

/// The text of a status.
pub open spec fn status_text(status: ExitStatusView) -> Seq<char> {
    if is_success(status) {
        "Success"@
    } else {
        match status.signal {
            Some(name) => "Terminated by "@ + name,
            None => "Exited with code "@ + decimal(status.code as nat),
        }
    }
}

/// What the operating system tells of a process that has ended.
#[derive(Debug)]
pub struct WaitStatus {
    /// The exit code, if the process exited.
    pub code: Option<i32>,
    /// The number of the signal that ended the process, if one did.
    pub signal: Option<i32>,
    /// The system's name of that signal, if it has one.
    pub signal_name: Option<Vec<u8>>,
    /// Whether the system calls this success.
    pub success: bool,
}

/// The name of a signal: the system's, or one made of its number.
pub open spec fn signal_text(number: i32, name: Option<Vec<u8>>) -> Seq<char> {
    match name {
        Some(bytes) => lossy_text(bytes@),
        None => "Signal "@ + signed_decimal(number as int),
    }
}

/// The status that the operating system's account means.
pub open spec fn status_of(wait: WaitStatus) -> ExitStatusView {
    match wait.signal {
        Some(number) => ExitStatusView {
            code: match wait.code {
                Some(code) => bits_of(code) as u32,
                None => 1,
            },
            signal: Some(signal_text(number, wait.signal_name)),
        },
        None => ExitStatusView {
            code: match wait.code {
                Some(code) => bits_of(code) as u32,
                None => if wait.success {
                    0
                } else {
                    1
                },
            },
            signal: None,
        },
    }
}

/// The bits of a code, read as an unsigned number.
fn unsigned(code: i32) -> (r: u32)
    ensures
        r == bits_of(code),
{
    let wide = code as i64;
    if wide < 0 {
        (wide + 0x1_0000_0000) as u32
    } else {
        wide as u32
    }
}

impl ExitStatus {
    /// The status of a process that exited with a code.
    pub fn with_exit_code(code: u32) -> (r: Self)
        ensures
            r@ == (ExitStatusView { code, signal: None }),
    {
        ExitStatus { code, signal: None }
    }

    /// The status of a process that a signal ended.
    pub fn with_signal(signal: &str) -> (r: Self)
        ensures
            r@ == (ExitStatusView { code: 1, signal: Some(signal@) }),
    {
        ExitStatus { code: 1, signal: Some(signal.to_owned()) }
    }

    /// The status that the operating system's account means.
    pub fn from_wait(wait: WaitStatus) -> (r: Self)
        ensures
            r@ == status_of(wait),
    {
        match wait.signal {
            Some(number) => {
                let name = match &wait.signal_name {
                    Some(bytes) => lossy(bytes.as_slice()),
                    None => {
                        let mut out = "Signal ".to_owned();
                        push_signed_decimal(&mut out, number as i64);
                        out
                    },
                };
                let code = match wait.code {
                    Some(code) => unsigned(code),
                    None => 1,
                };
                ExitStatus { code, signal: Some(name) }
            },
            None => {
                let code = match wait.code {
                    Some(code) => unsigned(code),
                    None => if wait.success {
                        0
                    } else {
                        1
                    },
                };
                ExitStatus { code, signal: None }
            },
        }
    }

    /// Whether the process completed successfully.
    pub fn success(&self) -> (r: bool)
        ensures
            r == is_success(self@),
    {
        self.signal.is_none() && self.code == 0
    }

    /// The exit code.
    pub fn exit_code(&self) -> (r: u32)
        ensures
            r == self@.code,
    {
        self.code
    }

    /// The name of the signal that ended the process, if one did.
    pub fn signal(&self) -> (r: Option<&str>)
        ensures
            match r {
                Some(name) => self@.signal == Some(name@),
                None => self@.signal is None,
            },
    {
        match &self.signal {
            Some(name) => Some(name.as_str()),
            None => None,
        }
    }

    /// The text of the status.
    pub fn message(&self) -> (r: String)
        ensures
            r@ == status_text(self@),
    {
        if self.success() {
            return "Success".to_owned();
        }
        match &self.signal {
            Some(name) => concat("Terminated by ", name.as_str()),
            None => {
                let mut out = "Exited with code ".to_owned();
                push_decimal(&mut out, self.code as u64);
                out
            },
        }
    }
}

impl Clone for ExitStatus {
    fn clone(&self) -> (r: Self)
        ensures
            r@ == self@,
    {
        ExitStatus {
            code: self.code,
            signal: match &self.signal {
                Some(name) => Some(name.clone()),
                None => None,
            },
        }
    }
}

/// A signal is never a success, whatever the exit code.
pub proof fn signal_is_no_success(wait: WaitStatus)
    requires
        wait.signal is Some,
    ensures
        !is_success(status_of(wait)),
{
}

/// Whether an account is one of a process that has ended: success is the exit
/// code zero, and a process that a signal ended has no exit code.
pub open spec fn is_account(wait: WaitStatus) -> bool {
    &&& wait.success == (wait.code == Some(0i32))
    &&& wait.signal is Some ==> wait.code is None
}

/// Taking over what the operating system tells of a process keeps whether it
/// succeeded, its exit code and whether a signal ended it; a process without an
/// exit code gets the code one.
pub proof fn account_is_kept(wait: WaitStatus)
    requires
        is_account(wait),
    ensures
        is_success(status_of(wait)) == wait.success,
        status_of(wait).signal is Some == wait.signal is Some,
        match wait.code {
            Some(code) => status_of(wait).code == bits_of(code),
            None => status_of(wait).code == 1,
        },
{
}

} // verus!
