//! [`ChiaPeerError`], the reasons a peer could not answer, and [`ChainSourceError`], what a chain
//! source reports for them.
//!
//! Every variant of either says the same thing to a caller: the answer is unknown. The mapping
//! between them turns an error into an error, never into an absence.

use vstd::prelude::*;
use vstd::std_specs::convert::FromSpecImpl;
use vstd::string::StringExecFns;

verus! {

/// The reason a read from a light-client peer could not complete reliably.
#[derive(Debug, Clone, PartialEq, Eq)]
pub enum ChiaPeerError {
    /// The peer could not be reached: socket, websocket or TLS. Carries the backend's message.
    Transport(String),
    /// The peer rejected the request, for instance because of a reorg or a subscription limit.
    Rejected(String),
    /// The peer's response could not be parsed.
    Malformed(String),
    /// The request did not complete before its deadline.
    Timeout,
    /// No usable full node was found.
    PeerDiscoveryFailed,
    /// The client is not connected to a peer.
    NotConnected,
    /// The TLS connector could not be set up.
    Tls(String),
}

/// What a [`ChiaPeerError`] says.
pub enum ChiaPeerErrorView {
    Transport(Seq<char>),
    Rejected(Seq<char>),
    Malformed(Seq<char>),
    Timeout,
    PeerDiscoveryFailed,
    NotConnected,
    Tls(Seq<char>),
}

impl View for ChiaPeerError {
    type V = ChiaPeerErrorView;

    open spec fn view(&self) -> ChiaPeerErrorView {
        match *self {
            ChiaPeerError::Transport(msg) => ChiaPeerErrorView::Transport(msg@),
            ChiaPeerError::Rejected(msg) => ChiaPeerErrorView::Rejected(msg@),
            ChiaPeerError::Malformed(msg) => ChiaPeerErrorView::Malformed(msg@),
            ChiaPeerError::Timeout => ChiaPeerErrorView::Timeout,
            ChiaPeerError::PeerDiscoveryFailed => ChiaPeerErrorView::PeerDiscoveryFailed,
            ChiaPeerError::NotConnected => ChiaPeerErrorView::NotConnected,
            ChiaPeerError::Tls(msg) => ChiaPeerErrorView::Tls(msg@),
        }
    }
}

/// The reason a chain source could not reliably answer a read.
#[derive(Debug, Clone, PartialEq, Eq)]
pub enum ChainSourceError {
    /// The backend could not be reached.
    Transport(String),
    /// The backend's answer could not be parsed.
    Malformed(String),
    /// The source does not support this read. Names the capability.
    Unsupported(&'static str),
    /// The read did not complete before its deadline.
    Timeout,
    /// The backend refused the read to limit its rate.
    RateLimited,
    /// No provider was available to answer.
    NoProvider,
}

/// What a [`ChainSourceError`] says.
pub enum ChainSourceErrorView {
    Transport(Seq<char>),
    Malformed(Seq<char>),
    Unsupported(Seq<char>),
    Timeout,
    RateLimited,
    NoProvider,
}

impl View for ChainSourceError {
    type V = ChainSourceErrorView;

    open spec fn view(&self) -> ChainSourceErrorView {
        match *self {
            ChainSourceError::Transport(msg) => ChainSourceErrorView::Transport(msg@),
            ChainSourceError::Malformed(msg) => ChainSourceErrorView::Malformed(msg@),
            ChainSourceError::Unsupported(what) => ChainSourceErrorView::Unsupported(what@),
            ChainSourceError::Timeout => ChainSourceErrorView::Timeout,
            ChainSourceError::RateLimited => ChainSourceErrorView::RateLimited,
            ChainSourceError::NoProvider => ChainSourceErrorView::NoProvider,
        }
    }
}

/// `c` with an ASCII capital made small.
pub open spec fn ascii_lower(c: char) -> char {
    if 'A' <= c <= 'Z' {
        (c as u8 + 32) as char
    } else {
        c
    }
}

/// `text` with its ASCII capitals made small.
pub open spec fn ascii_lowercase(text: Seq<char>) -> Seq<char> {
    text.map_values(|c: char| ascii_lower(c))
}

/// `part` stands in `text` at position `i`.
pub open spec fn occurs_at(text: Seq<char>, part: Seq<char>, i: int) -> bool {
    0 <= i && i + part.len() <= text.len() && text.subrange(i, i + part.len()) == part
}

/// `part` stands somewhere in `text`.
pub open spec fn occurs_in(text: Seq<char>, part: Seq<char>) -> bool {
    exists|i: int| #[trigger] occurs_at(text, part, i)
}

/// A message names a timeout if, whatever the case of its letters, it holds `timed out` or
/// `timeout`.
pub open spec fn names_timeout(message: Seq<char>) -> bool {
    occurs_in(ascii_lowercase(message), "timed out"@) || occurs_in(
        ascii_lowercase(message),
        "timeout"@,
    )
}

/// The characters of `text`.
fn chars_of(text: &str) -> (chars: Vec<char>)
    ensures
        chars@ == text@,
{
    let mut chars: Vec<char> = Vec::new();
    for c in it: text.chars()
        invariant
            chars@ == it.seq().take(it.index() as int),
            it.seq() == text@,
    {
        chars.push(c);
    }
    chars
}

/// The characters of `text`, with ASCII capitals made small.
fn lowercase_chars_of(text: &str) -> (chars: Vec<char>)
    ensures
        chars@ == ascii_lowercase(text@),
{
    let mut chars: Vec<char> = chars_of(text);
    let mut i: usize = 0;
    while i < chars.len()
        invariant
            i <= chars@.len(),
            chars@.len() == text@.len(),
            forall|j: int| 0 <= j < i ==> chars@[j] == ascii_lower(text@[j]),
            forall|j: int| i <= j < chars@.len() ==> chars@[j] == text@[j],
        decreases chars@.len() - i,
    {
        let c: char = chars[i];
        if 'A' <= c && c <= 'Z' {
            chars[i] = (c as u8 + 32) as char;
        }
        i += 1;
    }
    assert(chars@ =~= ascii_lowercase(text@));
    chars
}

/// Whether `part` stands somewhere in `text`.
fn contains_part(text: &Vec<char>, part: &Vec<char>) -> (found: bool)
    ensures
        found == occurs_in(text@, part@),
{
    let n: usize = text.len();
    let m: usize = part.len();
    let mut i: usize = 0;
    while i <= n && n - i >= m
        invariant
            n == text@.len(),
            m == part@.len(),
            i <= n + 1,
            forall|j: int| 0 <= j < i ==> !#[trigger] occurs_at(text@, part@, j),
        decreases n + 1 - i,
    {
        let mut k: usize = 0;
        while k < m && text[i + k] == part[k]
            invariant
                n == text@.len(),
                m == part@.len(),
                i + m <= n,
                k <= m,
                forall|j: int| 0 <= j < k ==> text@[i + j] == part@[j],
            decreases m - k,
        {
            k += 1;
        }
        if k == m {
            assert(text@.subrange(i as int, i + m) =~= part@);
            assert(occurs_at(text@, part@, i as int));
            return true;
        }
        assert(!occurs_at(text@, part@, i as int)) by {
            if occurs_at(text@, part@, i as int) {
                assert(text@.subrange(i as int, i + m)[k as int] == part@[k as int]);
            }
        }
        if i == n {
            return false;
        }
        i += 1;
    }
    false
}

impl ChiaPeerError {
    /// Whether `message` names a timeout.
    pub fn looks_like_timeout(message: &str) -> (timeout: bool)
        ensures
            timeout == names_timeout(message@),
    {
        let lower: Vec<char> = lowercase_chars_of(message);
        contains_part(&lower, &chars_of("timed out")) || contains_part(&lower, &chars_of("timeout"))
    }
}

/// How a [`ChiaPeerError`] reads.
pub open spec fn described(error: ChiaPeerErrorView) -> Seq<char> {
    match error {
        ChiaPeerErrorView::Transport(msg) => "chia peer transport error: "@ + msg,
        ChiaPeerErrorView::Rejected(msg) => "chia peer rejected the request: "@ + msg,
        ChiaPeerErrorView::Malformed(msg) => "malformed chia peer response: "@ + msg,
        ChiaPeerErrorView::Timeout => "chia peer request timed out"@,
        ChiaPeerErrorView::PeerDiscoveryFailed => "chia peer discovery failed"@,
        ChiaPeerErrorView::NotConnected => "chia light client is not connected"@,
        ChiaPeerErrorView::Tls(msg) => "chia peer TLS setup error: "@ + msg,
    }
}

impl ChiaPeerError {
    /// The error in words.
    pub fn describe(&self) -> (text: String)
        ensures
            text@ == described(self@),
    {
        match self {
            ChiaPeerError::Transport(msg) => "chia peer transport error: ".to_string().concat(
                msg.as_str(),
            ),
            ChiaPeerError::Rejected(msg) => "chia peer rejected the request: ".to_string().concat(
                msg.as_str(),
            ),
            ChiaPeerError::Malformed(msg) => "malformed chia peer response: ".to_string().concat(
                msg.as_str(),
            ),
            ChiaPeerError::Timeout => "chia peer request timed out".to_string(),
            ChiaPeerError::PeerDiscoveryFailed => "chia peer discovery failed".to_string(),
            ChiaPeerError::NotConnected => "chia light client is not connected".to_string(),
            ChiaPeerError::Tls(msg) => "chia peer TLS setup error: ".to_string().concat(
                msg.as_str(),
            ),
        }
    }
}

/// What a chain source reports for a peer error: a timeout, also one that only the message names;
/// an unparsable response; or a transport failure for everything else.
pub open spec fn reported(error: ChiaPeerErrorView) -> ChainSourceErrorView {
    match error {
        ChiaPeerErrorView::Timeout => ChainSourceErrorView::Timeout,
        ChiaPeerErrorView::Transport(msg) => if names_timeout(msg) {
            ChainSourceErrorView::Timeout
        } else {
            ChainSourceErrorView::Transport(msg)
        },
        ChiaPeerErrorView::Rejected(msg) => ChainSourceErrorView::Transport(msg),
        ChiaPeerErrorView::Malformed(msg) => ChainSourceErrorView::Malformed(msg),
        ChiaPeerErrorView::PeerDiscoveryFailed => ChainSourceErrorView::Transport(
            "peer discovery failed"@,
        ),
        ChiaPeerErrorView::NotConnected => ChainSourceErrorView::Transport(
            "light client is not connected"@,
        ),
        ChiaPeerErrorView::Tls(msg) => ChainSourceErrorView::Transport("TLS: "@ + msg),
    }
}

impl From<ChiaPeerError> for ChainSourceError {
    /// Reports a peer error as a chain-source error. Every peer error stays an error; only its
    /// class differs.
    fn from(error: ChiaPeerError) -> (mapped: Self)
        ensures
            mapped@ == reported(error@),
    {
        match error {
            ChiaPeerError::Timeout => ChainSourceError::Timeout,
            ChiaPeerError::Transport(msg) => if ChiaPeerError::looks_like_timeout(msg.as_str()) {
                ChainSourceError::Timeout
            } else {
                ChainSourceError::Transport(msg)
            },
            ChiaPeerError::Rejected(msg) => ChainSourceError::Transport(msg),
            ChiaPeerError::Malformed(msg) => ChainSourceError::Malformed(msg),
            ChiaPeerError::PeerDiscoveryFailed => ChainSourceError::Transport(
                "peer discovery failed".to_string(),
            ),
            ChiaPeerError::NotConnected => ChainSourceError::Transport(
                "light client is not connected".to_string(),
            ),
            ChiaPeerError::Tls(msg) => ChainSourceError::Transport(
                "TLS: ".to_string().concat(msg.as_str()),
            ),
        }
    }
}

impl FromSpecImpl<ChiaPeerError> for ChainSourceError {
    open spec fn obeys_from_spec() -> bool {
        false
    }

    open spec fn from_spec(error: ChiaPeerError) -> Self {
        arbitrary()
    }
}

/// Every peer error is reported in one of three classes: as a timeout exactly if it is one or a
/// transport error that names one, as malformed exactly if it is, and as a transport error
/// otherwise.
pub proof fn law_peer_errors_are_reported_in_three_classes(error: ChiaPeerErrorView)
    ensures
        reported(error) is Timeout <==> (error is Timeout || (error is Transport && names_timeout(
            error->Transport_0,
        ))),
        reported(error) is Malformed <==> error is Malformed,
        reported(error) is Transport <==> !(reported(error) is Timeout) && !(reported(
            error,
        ) is Malformed),
{
}

/// What each peer error is reported as, message and all.
pub proof fn law_what_each_peer_error_is_reported_as(msg: Seq<char>)
    ensures
        reported(ChiaPeerErrorView::Timeout) == ChainSourceErrorView::Timeout,
        reported(ChiaPeerErrorView::Transport(msg)) == ChainSourceErrorView::Timeout || reported(
            ChiaPeerErrorView::Transport(msg),
        ) == ChainSourceErrorView::Transport(msg),
        reported(ChiaPeerErrorView::Rejected(msg)) == ChainSourceErrorView::Transport(msg),
        reported(ChiaPeerErrorView::Malformed(msg)) == ChainSourceErrorView::Malformed(msg),
        reported(ChiaPeerErrorView::PeerDiscoveryFailed) == ChainSourceErrorView::Transport(
            "peer discovery failed"@,
        ),
        reported(ChiaPeerErrorView::NotConnected) == ChainSourceErrorView::Transport(
            "light client is not connected"@,
        ),
        reported(ChiaPeerErrorView::Tls(msg)) == ChainSourceErrorView::Transport("TLS: "@ + msg),
{
}

/// At position `i` of a message stands `word`, each of its letters small or capital.
pub open spec fn spells(msg: Seq<char>, word: Seq<char>, i: int) -> bool {
    &&& 0 <= i
    &&& i + word.len() <= msg.len()
    &&& forall|k: int|
        0 <= k < word.len() ==> (msg[i + k] == #[trigger] word[k] || ('A' <= msg[i + k] <= 'Z'
            && msg[i + k] as int + 32 == word[k] as int))
}

/// A transport error is reported as a timeout exactly if `timed out` or `timeout` stands somewhere
/// in its message, each letter small or capital.
pub proof fn law_transport_messages_that_name_a_timeout(msg: Seq<char>)
    ensures
        reported(ChiaPeerErrorView::Transport(msg)) is Timeout <==> (exists|i: int| #[trigger]
            spells(msg, "timed out"@, i)) || (exists|i: int| #[trigger] spells(msg, "timeout"@, i)),
        names_timeout(msg) <==> (exists|i: int| #[trigger] spells(msg, "timed out"@, i)) || (
        exists|i: int| #[trigger] spells(msg, "timeout"@, i)),
{
    reveal_strlit("timed out");
    reveal_strlit("timeout");
    lemma_occurs_in_any_case(msg, "timed out"@);
    lemma_occurs_in_any_case(msg, "timeout"@);
}

/// A word without capitals stands in a text whose capitals were made small exactly if it stands in
/// the text, each letter small or capital.
proof fn lemma_occurs_in_any_case(msg: Seq<char>, word: Seq<char>)
    requires
        forall|k: int| 0 <= k < word.len() ==> !('A' <= #[trigger] word[k] <= 'Z'),
    ensures
        occurs_in(ascii_lowercase(msg), word) <==> exists|i: int| #[trigger] spells(msg, word, i),
{
    let lower = ascii_lowercase(msg);
    if occurs_in(lower, word) {
        let i = choose|i: int| #[trigger] occurs_at(lower, word, i);
        assert forall|k: int| 0 <= k < word.len() implies (msg[i + k] == #[trigger] word[k] || ('A'
            <= msg[i + k] <= 'Z' && msg[i + k] as int + 32 == word[k] as int)) by {
            assert(lower.subrange(i, i + word.len())[k] == word[k]);
            assert(lower[i + k] == ascii_lower(msg[i + k]));
        }
        assert(spells(msg, word, i));
    }
    if exists|i: int| #[trigger] spells(msg, word, i) {
        let i = choose|i: int| #[trigger] spells(msg, word, i);
        assert forall|k: int| 0 <= k < word.len() implies lower.subrange(i, i + word.len())[k]
            == word[k] by {
            assert(lower[i + k] == ascii_lower(msg[i + k]));
            assert(msg[i + k] == word[k] || ('A' <= msg[i + k] <= 'Z' && msg[i + k] as int + 32
                == word[k] as int));
        }
        assert(lower.subrange(i, i + word.len()) =~= word);
        assert(occurs_at(lower, word, i));
    }
}

/// How each peer error reads: a sentence of its own, and behind it its message, if it has one.
pub proof fn law_how_each_peer_error_reads(msg: Seq<char>)
    ensures
        described(ChiaPeerErrorView::Transport(msg)) == "chia peer transport error: "@ + msg,
        described(ChiaPeerErrorView::Rejected(msg)) == "chia peer rejected the request: "@ + msg,
        described(ChiaPeerErrorView::Malformed(msg)) == "malformed chia peer response: "@ + msg,
        described(ChiaPeerErrorView::Timeout) == "chia peer request timed out"@,
        described(ChiaPeerErrorView::PeerDiscoveryFailed) == "chia peer discovery failed"@,
        described(ChiaPeerErrorView::NotConnected) == "chia light client is not connected"@,
        described(ChiaPeerErrorView::Tls(msg)) == "chia peer TLS setup error: "@ + msg,
{
}

/// An error says what it is: nothing but the storage of its message is left out.
pub proof fn law_errors_say_what_they_are(error: ChiaPeerError, mapped: ChainSourceError)
    ensures
        match error {
            ChiaPeerError::Transport(msg) => error@ == ChiaPeerErrorView::Transport(msg@),
            ChiaPeerError::Rejected(msg) => error@ == ChiaPeerErrorView::Rejected(msg@),
            ChiaPeerError::Malformed(msg) => error@ == ChiaPeerErrorView::Malformed(msg@),
            ChiaPeerError::Timeout => error@ is Timeout,
            ChiaPeerError::PeerDiscoveryFailed => error@ is PeerDiscoveryFailed,
            ChiaPeerError::NotConnected => error@ is NotConnected,
            ChiaPeerError::Tls(msg) => error@ == ChiaPeerErrorView::Tls(msg@),
        },
        match mapped {
            ChainSourceError::Transport(msg) => mapped@ == ChainSourceErrorView::Transport(msg@),
            ChainSourceError::Malformed(msg) => mapped@ == ChainSourceErrorView::Malformed(msg@),
            ChainSourceError::Unsupported(what) => mapped@ == ChainSourceErrorView::Unsupported(
                what@,
            ),
            ChainSourceError::Timeout => mapped@ is Timeout,
            ChainSourceError::RateLimited => mapped@ is RateLimited,
            ChainSourceError::NoProvider => mapped@ is NoProvider,
        },
{
}

} // verus!
