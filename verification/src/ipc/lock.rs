//! The file that tells clients where the supervisor is, and how they reach it.

use vstd::prelude::*;

use crate::ipc::protocol::{ServerResponse, ServerResponseView};
use crate::paths::{join, join_spec, runtime_dir};
use crate::text::{same, trim, trim_spec};
use crate::views::Duplicate;

verus! {

/// Where the supervisor is.
#[derive(Debug, PartialEq, Eq)]
pub struct LockInfo {
    pub pid: u32,
    pub socket_path: String,
    pub refresh_target_on_change: bool,
}

/// What a [`LockInfo`] stands for.
pub struct LockInfoView {
    pub pid: u32,
    pub socket_path: Seq<char>,
    pub refresh_target_on_change: bool,
}

impl DeepView for LockInfo {
    type V = LockInfoView;

    open spec fn deep_view(&self) -> LockInfoView {
        LockInfoView {
            pid: self.pid,
            socket_path: self.socket_path.deep_view(),
            refresh_target_on_change: self.refresh_target_on_change,
        }
    }
}

impl Duplicate for LockInfo {
    fn duplicate(&self) -> (copy: Self) {
        LockInfo {
            pid: self.pid,
            socket_path: self.socket_path.duplicate(),
            refresh_target_on_change: self.refresh_target_on_change,
        }
    }
}

impl LockInfo {
    /// Where the supervisor listens.
    pub fn socket_path(&self) -> (r: &str)
        ensures
            r@ == self.deep_view().socket_path,
    {
        self.socket_path.as_str()
    }

    /// Takes note of the refresh setting.
    pub fn update_refresh_target_on_change(&mut self, value: bool)
        ensures
            final(self).deep_view() == (LockInfoView {
                refresh_target_on_change: value,
                ..old(self).deep_view()
            }),
    {
        self.refresh_target_on_change = value;
    }
}

/// The file that tells where the supervisor is.
pub fn lock_file_path() -> (r: String)
    ensures
        r@ == ".rufa.lock"@,
{
    ".rufa.lock".to_owned()
}

/// The file that the lock is written to before it takes its place.
pub fn lock_tmp_path() -> (r: String)
    ensures
        r@ == ".rufa.tmp"@,
{
    ".rufa.tmp".to_owned()
}

// ---------------------------------------------------------------------------
// Sockets
// ---------------------------------------------------------------------------

/// Whether a text has the form of a UUID: hexadecimal digits in lower case, with hyphens between
/// its five groups.
pub open spec fn is_uuid(text: Seq<char>) -> bool {
    &&& text.len() == 36
    &&& forall|i: int|
        0 <= i < 36 ==> if i == 8 || i == 13 || i == 18 || i == 23 {
            #[trigger] text[i] == '-'
        } else {
            '0' <= text[i] <= '9' || 'a' <= text[i] <= 'f'
        }
}

/// The socket with the given identity.
pub open spec fn socket_path_spec(id: Seq<char>) -> Seq<char> {
    join_spec(".rufa"@, "rufa-"@ + id + ".sock"@)
}

/// A new identity by `uuid::Uuid::new_v4`, as `Uuid` displays it. It is drawn by chance, so only
/// its form is known.
#[verifier::external_body]
fn new_uuid() -> (r: String)
    ensures
        is_uuid(r@),
{
    uuid::Uuid::new_v4().to_string()
}

/// The socket with the identity `id`.
pub fn socket_path_for(id: &str) -> (r: String)
    ensures
        r@ == socket_path_spec(id@),
{
    let mut name: String = "rufa-".to_owned();
    name.append(id);
    name.append(".sock");
    join(runtime_dir().as_str(), name.as_str())
}

/// A path for a new socket.
pub fn allocate_socket_path() -> (r: String)
    ensures
        exists|id: Seq<char>| is_uuid(id) && r@ == #[trigger] socket_path_spec(id),
{
    let id: String = new_uuid();
    let r: String = socket_path_for(id.as_str());
    assert(is_uuid(id@) && r@ == socket_path_spec(id@));
    r
}

// ---------------------------------------------------------------------------
// Reaching the supervisor
// ---------------------------------------------------------------------------

/// Whether an answer shows that the supervisor runs.
pub open spec fn shows_running(answer: Option<ServerResponseView>) -> bool {
    match answer {
        Some(ServerResponseView::Ack) => true,
        Some(ServerResponseView::Info(_)) => true,
        Some(ServerResponseView::Error(_)) => false,
        None => false,
    }
}

/// Whether an answer to a ping, where there was one, shows that the supervisor runs. Otherwise the
/// lock is stale.
pub fn answers_ping(answer: Option<&ServerResponse>) -> (r: bool)
    ensures
        r == shows_running(answer.deep_view()),
{
    match answer {
        Some(ServerResponse::Ack) => true,
        Some(ServerResponse::Info(_)) => true,
        Some(ServerResponse::Error(_)) => false,
        None => false,
    }
}

/// What to do while waiting for something.
#[derive(Debug, Clone, Copy, PartialEq, Eq, Structural)]
pub enum WaitStep {
    Done,
    TimedOut,
    /// Look again after some milliseconds.
    LookAgain { millis: u64 },
}

/// What to do while waiting.
pub open spec fn waiting_step(arrived: bool, elapsed: u64, timeout: u64) -> WaitStep {
    if arrived {
        WaitStep::Done
    } else if elapsed >= timeout {
        WaitStep::TimedOut
    } else {
        WaitStep::LookAgain { millis: 100 }
    }
}

/// What to do while waiting, given whether what is waited for has come, and the milliseconds that
/// have passed and may pass.
pub fn wait_step(arrived: bool, elapsed: u64, timeout: u64) -> (r: WaitStep)
    ensures
        r == waiting_step(arrived, elapsed, timeout),
{
    if arrived {
        WaitStep::Done
    } else if elapsed >= timeout {
        WaitStep::TimedOut
    } else {
        WaitStep::LookAgain { millis: 100 }
    }
}

/// The message of a line that was read.
pub open spec fn message_in(bytes_read: usize, line: Seq<char>) -> Option<Seq<char>> {
    if bytes_read == 0 {
        None
    } else {
        Some(trim_spec(line))
    }
}

/// The message of a line that was read; none where nothing was.
pub fn message_of_line(bytes_read: usize, line: &str) -> (r: Option<String>)
    ensures
        r.deep_view() == message_in(bytes_read, line@),
{
    if bytes_read == 0 {
        None
    } else {
        Some(trim(line))
    }
}

/// The refresh setting as a new supervisor is told it.
pub open spec fn setting_text(refresh: bool) -> Seq<char> {
    if refresh {
        "1"@
    } else {
        "0"@
    }
}

/// The refresh setting as a new supervisor is told it.
pub fn default_watch_text(refresh: bool) -> (r: String)
    ensures
        r@ == setting_text(refresh),
{
    if refresh {
        "1".to_owned()
    } else {
        "0".to_owned()
    }
}

/// The refresh setting that a variable tells; off where it is missing.
pub open spec fn setting_told(value: Option<Seq<char>>) -> bool {
    match value {
        Some(text) => text == "1"@ || text == "true"@ || text == "TRUE"@ || text == "yes"@ || text
            == "YES"@,
        None => false,
    }
}

/// The refresh setting that the variable tells; off where it is missing.
pub fn default_watch_from(value: Option<&str>) -> (r: bool)
    ensures
        r == setting_told(value.deep_view()),
{
    match value {
        Some(text) => same(text, "1") || same(text, "true") || same(text, "TRUE") || same(
            text,
            "yes",
        ) || same(text, "YES"),
        None => false,
    }
}

// ---------------------------------------------------------------------------
// Laws
// ---------------------------------------------------------------------------

/// A new supervisor takes up the setting that it is told.
pub proof fn setting_is_taken_up(refresh: bool)
    ensures
        setting_told(Some(setting_text(refresh))) == refresh,
{
    reveal_strlit("0");
    reveal_strlit("1");
    reveal_strlit("true");
    reveal_strlit("TRUE");
    reveal_strlit("yes");
    reveal_strlit("YES");
    assert("0"@[0] == '0' && "1"@[0] == '1');
}

/// Sockets of different identities have different paths.
pub proof fn sockets_are_told_apart(a: Seq<char>, b: Seq<char>)
    requires
        is_uuid(a),
        is_uuid(b),
        socket_path_spec(a) == socket_path_spec(b),
    ensures
        a == b,
{
    reveal_strlit(".rufa");
    reveal_strlit("rufa-");
    reveal_strlit(".sock");
    let x = socket_path_spec(a);
    let y = socket_path_spec(b);
    assert(x =~= ".rufa"@ + seq!['/'] + "rufa-"@ + a + ".sock"@);
    assert(y =~= ".rufa"@ + seq!['/'] + "rufa-"@ + b + ".sock"@);
    assert(x.subrange(11, 47) =~= a);
    assert(y.subrange(11, 47) =~= b);
}

/// A supervisor runs where it answers, unless it answers with an error.
pub proof fn answer_shows_a_running_supervisor(answer: ServerResponseView)
    ensures
        shows_running(Some(answer)) <==> !(answer is Error),
        !shows_running(None),
{
}

/// What is waited for is looked for again and again until it has come or the time is up.
pub proof fn waiting_goes_on_until_the_time_is_up(elapsed: u64, timeout: u64)
    ensures
        waiting_step(true, elapsed, timeout) == WaitStep::Done,
        waiting_step(false, elapsed, timeout) == WaitStep::TimedOut <==> elapsed >= timeout,
        elapsed < timeout ==> waiting_step(false, elapsed, timeout) is LookAgain && waiting_step(
            false,
            elapsed,
            timeout,
        )->millis == 100,
{
}

/// A message is sent on a line of its own and read without the line end; where nothing is read
/// there is none.
pub proof fn message_is_read_from_its_line(bytes_read: usize, line: Seq<char>)
    ensures
        bytes_read > 0 ==> message_in(bytes_read, line) == Some(trim_spec(line)),
        message_in(0, line) is None,
{
}

} // verus!
