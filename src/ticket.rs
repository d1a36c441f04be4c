use vstd::prelude::*;
use vstd::string::*;

verus! {

/// The literal that starts every ticket token.
pub open spec fn ticket_prefix() -> Seq<char> {
    seq!['b', 'l', 'o', 'b']
}

/// Length of the prefix.
pub const PREFIX_LEN: usize = 4;

/// A token's alphanumeric suffix must be longer than this.
pub const MIN_SUFFIX_EXCLUSIVE: usize = 30;

/// ASCII letters and digits.
pub open spec fn is_alnum(c: char) -> bool {
    ('a' <= c && c <= 'z') || ('A' <= c && c <= 'Z') || ('0' <= c && c <= '9')
}

/// Length of the maximal run of alphanumeric characters of `s` that starts at `j`.
pub open spec fn run_len(s: Seq<char>, j: int) -> nat
    decreases s.len() - j,
{
    if 0 <= j < s.len() && is_alnum(s[j]) {
        1 + run_len(s, j + 1)
    } else {
        0
    }
}

/// `s` holds the prefix at `i`, followed by an alphanumeric run longer than the minimum.
pub open spec fn token_at(s: Seq<char>, i: int) -> bool {
    &&& 0 <= i
    &&& i + 4 <= s.len()
    &&& s.subrange(i, i + 4) == ticket_prefix()
    &&& run_len(s, i + 4) > 30
}

/// The position just past the token that starts at `i`.
pub open spec fn token_end(s: Seq<char>, i: int) -> int {
    i + 4 + run_len(s, i + 4)
}

/// `i` is the leftmost position at which a token starts.
pub open spec fn first_token_at(s: Seq<char>, i: int) -> bool {
    &&& token_at(s, i)
    &&& forall|j: int| 0 <= j < i ==> !#[trigger] token_at(s, j)
}

proof fn lemma_run_len_bound(s: Seq<char>, j: int)
    requires
        0 <= j <= s.len(),
    ensures
        j + run_len(s, j) <= s.len(),
        forall|k: int| j <= k < j + run_len(s, j) ==> is_alnum(#[trigger] s[k]),
        j + run_len(s, j) < s.len() ==> !is_alnum(s[j + run_len(s, j)]),
    decreases s.len() - j,
{
    if j < s.len() && is_alnum(s[j]) {
        lemma_run_len_bound(s, j + 1);
    }
}

/// What a token is: the prefix, then more than 30 ASCII letters and digits, ending where
/// the text ends or at a character that is neither.
pub proof fn lemma_token_shape(s: Seq<char>, i: int)
    requires
        token_at(s, i),
    ensures
        s.subrange(i, i + 4) == ticket_prefix(),
        token_end(s, i) - (i + 4) > 30,
        token_end(s, i) <= s.len(),
        forall|k: int| i + 4 <= k < token_end(s, i) ==> is_alnum(#[trigger] s[k]),
        token_end(s, i) == s.len() || !is_alnum(s[token_end(s, i)]),
{
    lemma_run_len_bound(s, i + 4);
}

/// A prefix whose run of letters and digits is 30 long or shorter, or whose run is cut
/// by another character before it is long enough, starts no token.
pub proof fn lemma_short_run_is_no_token(s: Seq<char>, i: int, stop: int)
    requires
        0 <= i,
        i + 4 <= stop <= i + 34,
        stop < s.len(),
        !is_alnum(s[stop]),
    ensures
        !token_at(s, i),
{
    lemma_run_len_bound(s, i + 4);
    if run_len(s, i + 4) > 30 {
        assert(is_alnum(s[stop]));
    }
}

fn is_alnum_char(c: char) -> (r: bool)
    ensures
        r == is_alnum(c),
{
    ('a' <= c && c <= 'z') || ('A' <= c && c <= 'Z') || ('0' <= c && c <= '9')
}

/// Length of the alphanumeric run of `input` that starts at character `j`.
fn count_run(input: &str, n: usize, j: usize) -> (r: usize)
    requires
        n == input@.len(),
        j <= n,
    ensures
        r == run_len(input@, j as int),
{
    let mut e: usize = j;
    while e < n && is_alnum_char(input.get_char(e))
        invariant
            j <= e <= n,
            n == input@.len(),
            run_len(input@, j as int) == (e - j) + run_len(input@, e as int),
        decreases n - e,
    {
        e = e + 1;
    }
    e - j
}

/// Whether the characters of `input` at `i .. i + 4` are the ticket prefix.
fn prefix_at(input: &str, n: usize, i: usize) -> (r: bool)
    requires
        n == input@.len(),
        i + 4 <= n,
    ensures
        r == (input@.subrange(i as int, i + 4) == ticket_prefix()),
{
    let r = input.get_char(i) == 'b' && input.get_char(i + 1) == 'l' && input.get_char(i + 2)
        == 'o' && input.get_char(i + 3) == 'b';
    proof {
        if r {
            assert(input@.subrange(i as int, i + 4) =~= ticket_prefix());
        } else if input@.subrange(i as int, i + 4) == ticket_prefix() {
            assert(input@.subrange(i as int, i + 4)[0] == 'b');
            assert(input@.subrange(i as int, i + 4)[1] == 'l');
            assert(input@.subrange(i as int, i + 4)[2] == 'o');
            assert(input@.subrange(i as int, i + 4)[3] == 'b');
        }
    }
    r
}

/// Finds the first ticket token in `input`: the prefix `blob` directly followed by a
/// maximal run of ASCII letters and digits longer than 30 characters. The leftmost such
/// token is taken. On a match the token is returned and `input` is advanced past it; with
/// no match `input` is left as it was. This is a lexical filter only: the token may still
/// fail to decode as a ticket.
pub fn get_blob(input: &mut &str) -> (r: Option<String>)
    ensures
        r is None <==> (forall|i: int| 0 <= i < old(input)@.len() ==> !#[trigger] token_at(old(input)@, i)),
        r is None ==> *final(input) == *old(input),
        r matches Some(t) ==> exists|i: int|
            #![trigger token_at(old(input)@, i)]
            first_token_at(old(input)@, i)
            && t@ == old(input)@.subrange(i, token_end(old(input)@, i))
            && final(input)@ == old(input)@.subrange(token_end(old(input)@, i), old(input)@.len() as int),
{
    let s: &str = *input;
    let n = s.unicode_len();
    let mut i: usize = 0;
    while PREFIX_LEN <= n - i
        invariant
            n == s@.len(),
            i <= n,
            s == *old(input),
            *input == *old(input),
            forall|j: int| 0 <= j < i ==> !#[trigger] token_at(s@, j),
        decreases n - i,
    {
        if prefix_at(s, n, i) {
            let run = count_run(s, n, i + PREFIX_LEN);
            if run > MIN_SUFFIX_EXCLUSIVE {
                proof {
                    lemma_run_len_bound(s@, i + 4);
                }
                let end = i + PREFIX_LEN + run;
                let token = String::from_str(s.substring_char(i, end));
                *input = s.substring_char(end, n);
                assert(token_at(s@, i as int));
                return Some(token);
            }
        }
        i = i + 1;
    }
    None
}

} // verus!

verus! {

/// How to reach a peer: an optional relay and any number of direct addresses.
#[derive(Debug)]
pub struct PeerAddr {
    pub node_id: Vec<u8>,
    pub relay_url: Option<String>,
    pub direct_addresses: Vec<String>,
}

/// A peer address with neither a relay nor a direct address can only be found by a
/// name-based discovery lookup.
pub fn needs_discovery(addr: &PeerAddr) -> (r: bool)
    ensures
        r == (addr.relay_url is None && addr.direct_addresses@.len() == 0),
{
    addr.relay_url.is_none() && addr.direct_addresses.len() == 0
}

/// Where the local identity key comes from.
#[derive(Debug, PartialEq, Eq)]
pub enum KeySource {
    /// A key supplied by the environment, still to be parsed.
    Stored(String),
    /// No key was supplied: a fresh one is generated for this process.
    Fresh,
}

/// A supplied key is used as it is; without one, a fresh key is generated.
pub fn get_or_create_secret(supplied: Option<String>) -> (r: KeySource)
    ensures
        supplied matches Some(s) ==> r matches KeySource::Stored(t) && t@ == s@,
        supplied is None ==> r is Fresh,
{
    match supplied {
        Some(s) => KeySource::Stored(s),
        None => KeySource::Fresh,
    }
}

} // verus!
