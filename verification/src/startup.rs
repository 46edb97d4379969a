use vstd::prelude::*;

use crate::text::push_str;

verus! {

/// How long to wait before retry `round` (from 0), doubling each time; no
/// more retries after the seventh.
pub open spec fn delay_at(round: int) -> Option<u64> {
    if round == 0 {
        Some(50)
    } else if round == 1 {
        Some(100)
    } else if round == 2 {
        Some(200)
    } else if round == 3 {
        Some(400)
    } else if round == 4 {
        Some(800)
    } else if round == 5 {
        Some(1600)
    } else if round == 6 {
        Some(3200)
    } else {
        None
    }
}

pub fn retry_delay(round: usize) -> (r: Option<u64>)
    ensures
        r == delay_at(round as int),
{
    match round {
        0 => Some(50),
        1 => Some(100),
        2 => Some(200),
        3 => Some(400),
        4 => Some(800),
        5 => Some(1600),
        6 => Some(3200),
        _ => None,
    }
}

/// What connecting to the server does next.
pub enum StartupAction {
    /// Wait this long, check that a server started here still runs, and
    /// try again.
    Retry { delay_ms: u64 },
    /// Connected; `server` tells whether a server started here runs.
    Ready { server: bool },
    /// Give up with this error.
    Fail { error: String, server: bool },
}

/// Where connecting stands between retries.
pub struct Startup {
    /// Whether the client started a server of its own.
    pub autostart: bool,
    /// Whether that server runs.
    pub server: bool,
    pub last_error: String,
    /// The retries made so far.
    pub round: usize,
}

/// Without a client there is nothing to connect: fail with why it could
/// not be made.
pub fn setup_failed(setup_error: Option<String>) -> (r: StartupAction)
    ensures
        r matches StartupAction::Fail { error, server } && !server && error@ == match setup_error {
            Some(e) => e@,
            None => "client setup failed"@,
        },
{
    proof {
        reveal_strlit("client setup failed");
    }
    let error = match setup_error {
        Some(e) => e,
        None => "client setup failed".to_owned(),
    };
    StartupAction::Fail { error, server: false }
}

/// Decides after the first attempt and, when the client started a server of
/// its own, the outcome of that start (whether a server runs, or why it
/// could not start). A failed start ends it all only when the first attempt
/// failed too; a first attempt that succeeded connects at once.
pub fn after_first_attempt(initial: Result<(), String>, start: Option<Result<bool, String>>) -> (r: (
    Startup,
    StartupAction,
))
    ensures
        match (initial, start) {
            (Err(_), Some(Err(e))) => r.1 matches StartupAction::Fail { error, server } && error@ == e@
                && !server,
            (Ok(()), _) => r.1 matches StartupAction::Ready { server } && server == (start matches Some(
                Ok(true),
            )),
            (Err(e), _) => r.1 matches StartupAction::Retry { delay_ms } && delay_ms == 50 && r.0.autostart
                == start is Some && r.0.server == (start matches Some(Ok(true))) && r.0.last_error@ == e@
                && r.0.round == 0,
        },
{
    let autostart = start.is_some();
    let server = match start {
        Some(Ok(running)) => running,
        Some(Err(error)) => {
            if initial.is_err() {
                let empty = Startup { autostart, server: false, last_error: String::new(), round: 0 };
                return (empty, StartupAction::Fail { error, server: false });
            }
            false
        },
        None => false,
    };
    match initial {
        Ok(()) => (
            Startup { autostart, server, last_error: String::new(), round: 0 },
            StartupAction::Ready { server },
        ),
        Err(error) => (
            Startup { autostart, server, last_error: error, round: 0 },
            StartupAction::Retry { delay_ms: 50 },
        ),
    }
}

/// The error connecting ends with after the last retry failed with `last`.
pub open spec fn final_error(autostart: bool, server: bool, last: Seq<char>) -> Seq<char> {
    let reason = if autostart && !server {
        "port 4096 is occupied but is not responding as OpenCode; free it or set OPENCODE_SERVER_URL ("@
            + last + ")"@
    } else {
        last
    };
    "could not connect to opencode after startup retries: "@ + reason
}

impl Startup {
    /// Takes what the client learned of the server it started: that it
    /// exited (with this status), that asking failed, or that it still
    /// runs (`None`). Either of the first two ends it all.
    pub fn after_server_check(&self, status: Result<Option<String>, String>) -> (r: Option<StartupAction>)
        ensures
            match status {
                Ok(None) => r is None,
                Ok(Some(s)) => r matches Some(StartupAction::Fail { error, server }) && !server && error@
                    == "local opencode server exited before becoming ready ("@ + s@ + ")"@,
                Err(e) => r matches Some(StartupAction::Fail { error, server }) && !server && error@ == e@,
            },
    {
        proof {
            reveal_strlit("local opencode server exited before becoming ready (");
            reveal_strlit(")");
        }
        match status {
            Ok(None) => None,
            Ok(Some(exit)) => {
                let mut error = "local opencode server exited before becoming ready (".to_owned();
                push_str(&mut error, exit.as_str());
                push_str(&mut error, ")");
                Some(StartupAction::Fail { error, server: false })
            },
            Err(error) => Some(StartupAction::Fail { error, server: false }),
        }
    }

    /// Takes the outcome of a retry: connected, another retry after a longer
    /// wait, or, after the last, failure with the last error.
    pub fn after_retry(&mut self, result: Result<(), String>) -> (r: StartupAction)
        requires
            old(self).round < usize::MAX,
        ensures
            match result {
                Ok(()) => r matches StartupAction::Ready { server } && server == old(self).server
                    && *final(self) == *old(self),
                Err(e) => final(self).round == old(self).round + 1 && final(self).last_error@ == e@
                    && final(self).autostart == old(self).autostart && final(self).server == old(
                    self,
                ).server && match delay_at(old(self).round + 1) {
                    Some(d) => r matches StartupAction::Retry { delay_ms } && delay_ms == d,
                    None => r matches StartupAction::Fail { error, server } && server == old(self).server
                        && error@ == final_error(old(self).autostart, old(self).server, e@),
                },
            },
    {
        let error = match result {
            Ok(()) => return StartupAction::Ready { server: self.server },
            Err(error) => error,
        };
        self.last_error = error;
        self.round = self.round + 1;
        match retry_delay(self.round) {
            Some(delay_ms) => StartupAction::Retry { delay_ms },
            None => {
                proof {
                    reveal_strlit("port 4096 is occupied but is not responding as OpenCode; free it or set OPENCODE_SERVER_URL (");
                    reveal_strlit(")");
                    reveal_strlit("could not connect to opencode after startup retries: ");
                }
                let mut error = "could not connect to opencode after startup retries: ".to_owned();
                if self.autostart && !self.server {
                    push_str(
                        &mut error,
                        "port 4096 is occupied but is not responding as OpenCode; free it or set OPENCODE_SERVER_URL (",
                    );
                    push_str(&mut error, self.last_error.as_str());
                    push_str(&mut error, ")");
                } else {
                    push_str(&mut error, self.last_error.as_str());
                }
                StartupAction::Fail { error, server: self.server }
            },
        }
    }
}

/// Each wait before a retry is twice the one before, and the client gives up
/// after seven retries.
pub proof fn law_waits_double_and_end(round: int)
    requires
        0 <= round,
    ensures
        delay_at(round) is None <==> round >= 7,
        0 < round < 7 ==> delay_at(round)->0 == 2 * delay_at(round - 1)->0,
{
}

} // verus!
