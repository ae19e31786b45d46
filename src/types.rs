use vstd::prelude::*;

verus! {

/// The text of each string, in order.
pub open spec fn string_views(q: Seq<String>) -> Seq<Seq<char>> {
    q.map_values(|s: String| s@)
}

pub(crate) proof fn lemma_remove_keeps_no_dup(q: Seq<Seq<char>>, k: int)
    requires
        q.no_duplicates(),
        0 <= k < q.len(),
    ensures
        q.remove(k).no_duplicates(),
{
    let r = q.remove(k);
    assert forall|a: int, b: int| 0 <= a < r.len() && 0 <= b < r.len() && a != b implies r[a]
        != r[b] by {
        let oa = if a < k { a } else { a + 1 };
        let ob = if b < k { b } else { b + 1 };
        assert(r[a] == q[oa]);
        assert(r[b] == q[ob]);
    }
}

/// The decimal digit character for `d < 10`.
pub open spec fn digit_char(d: nat) -> char {
    if d == 0 { '0' }
    else if d == 1 { '1' }
    else if d == 2 { '2' }
    else if d == 3 { '3' }
    else if d == 4 { '4' }
    else if d == 5 { '5' }
    else if d == 6 { '6' }
    else if d == 7 { '7' }
    else if d == 8 { '8' }
    else { '9' }
}

/// The decimal notation of `n`, without leading zeros.
pub open spec fn decimal(n: nat) -> Seq<char>
    decreases n,
{
    if n < 10 {
        seq![digit_char(n)]
    } else {
        decimal(n / 10) + seq![digit_char(n % 10)]
    }
}

/// The octal notation of `n`, without leading zeros.
pub open spec fn octal(n: nat) -> Seq<char>
    decreases n,
{
    if n < 8 {
        seq![digit_char(n)]
    } else {
        octal(n / 8) + seq![digit_char(n % 8)]
    }
}

/// Appends the octal notation of `n` to `s`.
pub fn push_octal(s: &mut String, n: u32)
    ensures
        final(s)@ == old(s)@ + octal(n as nat),
    decreases n,
{
    if n >= 8 {
        push_octal(s, n / 8);
    }
    s.append(digit_str((n % 8) as u16));
    proof {
        if n >= 8 {
            assert(octal(n as nat) == octal((n / 8) as nat) + seq![digit_char((n % 8) as nat)]);
        }
    }
}

/// The identity of a session: `username@host:port`.
pub open spec fn connection_id_of(username: Seq<char>, host: Seq<char>, port: nat) -> Seq<char> {
    username + seq!['@'] + host + seq![':'] + decimal(port)
}

fn digit_str(d: u16) -> (r: &'static str)
    requires
        d < 10,
    ensures
        r@ == seq![digit_char(d as nat)],
{
    proof {
        reveal_strlit("0");
        reveal_strlit("1");
        reveal_strlit("2");
        reveal_strlit("3");
        reveal_strlit("4");
        reveal_strlit("5");
        reveal_strlit("6");
        reveal_strlit("7");
        reveal_strlit("8");
        reveal_strlit("9");
    }
    if d == 0 { "0" }
    else if d == 1 { "1" }
    else if d == 2 { "2" }
    else if d == 3 { "3" }
    else if d == 4 { "4" }
    else if d == 5 { "5" }
    else if d == 6 { "6" }
    else if d == 7 { "7" }
    else if d == 8 { "8" }
    else { "9" }
}

/// Appends the decimal notation of `n` to `s`.
pub fn push_decimal(s: &mut String, n: u16)
    ensures
        final(s)@ == old(s)@ + decimal(n as nat),
    decreases n,
{
    if n >= 10 {
        push_decimal(s, n / 10);
    }
    s.append(digit_str(n % 10));
    proof {
        if n >= 10 {
            assert(decimal(n as nat) == decimal((n / 10) as nat) + seq![digit_char((n % 10) as nat)]);
        }
    }
}

/// The key under which a live session is registered, derived from the
/// user, host and port it was opened with.
#[derive(Debug, Clone)]
pub struct ConnectionId(String);

impl View for ConnectionId {
    type V = Seq<char>;

    closed spec fn view(&self) -> Seq<char> {
        self.0@
    }
}

impl ConnectionId {
    pub fn new(username: &str, host: &str, port: u16) -> (r: ConnectionId)
        ensures
            r@ == connection_id_of(username@, host@, port as nat),
    {
        let mut s = String::from_str(username);
        proof {
            reveal_strlit("@");
            reveal_strlit(":");
        }
        s.append("@");
        s.append(host);
        s.append(":");
        push_decimal(&mut s, port);
        ConnectionId(s)
    }

    pub fn as_str(&self) -> (r: &str)
        ensures
            r@ == self@,
    {
        self.0.as_str()
    }
}

/// Relies on uuid::Uuid::new_v4 and its `Display` form, the 36-character
/// hyphenated text: a fresh random identifier.
#[verifier::external_body]
pub(crate) fn random_id() -> (r: String)
    ensures
        r@.len() == 36,
{
    uuid::Uuid::new_v4().to_string()
}

/// Relies on chrono::Utc::now and DateTime::timestamp_millis: the current
/// wall-clock time in milliseconds since the Unix epoch.
#[verifier::external_body]
pub(crate) fn now_millis() -> (r: i64) {
    chrono::Utc::now().timestamp_millis()
}

/// The id of a transfer task.
#[derive(Debug, Clone)]
pub struct TaskId(String);

impl View for TaskId {
    type V = Seq<char>;

    closed spec fn view(&self) -> Seq<char> {
        self.0@
    }
}

impl TaskId {
    /// A fresh random id.
    pub fn new() -> (r: TaskId)
        ensures
            r@.len() == 36,
    {
        TaskId(random_id())
    }

    pub fn as_str(&self) -> (r: &str)
        ensures
            r@ == self@,
    {
        self.0.as_str()
    }
}

impl From<String> for ConnectionId {
    fn from(s: String) -> (r: ConnectionId)
        ensures
            r@ == s@,
    {
        ConnectionId(s)
    }
}

impl vstd::std_specs::convert::FromSpecImpl<String> for ConnectionId {
    open spec fn obeys_from_spec() -> bool {
        true
    }

    closed spec fn from_spec(s: String) -> ConnectionId {
        ConnectionId(s)
    }
}

impl From<String> for TaskId {
    fn from(s: String) -> (r: TaskId)
        ensures
            r@ == s@,
    {
        TaskId(s)
    }
}

impl vstd::std_specs::convert::FromSpecImpl<String> for TaskId {
    open spec fn obeys_from_spec() -> bool {
        true
    }

    closed spec fn from_spec(s: String) -> TaskId {
        TaskId(s)
    }
}

} // verus!
