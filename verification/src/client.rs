//! The decisions of a TLS client connection: what to do after each step of
//! reading from the peer, which readiness to wait for, when to stop and with
//! which exit code; and the names of protocol versions, cipher suites and
//! addresses that a client configuration is built from.

use vstd::prelude::*;

verus! {

/// Whether the connection is closing, and whether it closed cleanly.
pub struct TlsClient {
    closing: bool,
    clean_closure: bool,
}

/// The view of the connection state: (closing, clean closure).
pub struct TlsClientView {
    pub closing: bool,
    pub clean_closure: bool,
}

impl View for TlsClient {
    type V = TlsClientView;

    closed spec fn view(&self) -> TlsClientView {
        TlsClientView { closing: self.closing, clean_closure: self.clean_closure }
    }
}

/// What happened at one step of reading from the peer.
pub enum ReadEvent {
    /// Reading TLS records from the socket failed.
    TlsReadFailed,
    /// Reading TLS records from the socket gave this many bytes (zero is
    /// end of stream).
    TlsRead(usize),
    /// Processing the records that were read failed.
    ProcessFailed,
    /// The records that were read were processed.
    Processed,
    /// Reading the plaintext gave this many bytes, and then either no error
    /// or an error, telling whether that error was a connection abort.
    Plaintext { len: usize, error: Option<bool> },
}

/// What to do next after a step of reading from the peer.
#[derive(PartialEq, Eq, Structural, Clone, Copy, Debug)]
pub enum ReadAction {
    /// Process the TLS records that were read.
    ProcessPackets,
    /// Read the plaintext that processing yielded.
    ReadPlaintext,
    /// Stop reading; write the plaintext that was read to standard output
    /// first when `echo` is set.
    Finish { echo: bool },
}

/// The state and action after one step of reading, from the state before.
pub open spec fn spec_read_step(s: TlsClientView, ev: ReadEvent) -> (TlsClientView, ReadAction) {
    match ev {
        ReadEvent::TlsReadFailed => (TlsClientView { closing: true, ..s }, ReadAction::Finish { echo: false }),
        ReadEvent::TlsRead(n) => if n == 0 {
            (TlsClientView { closing: true, clean_closure: true }, ReadAction::Finish { echo: false })
        } else {
            (s, ReadAction::ProcessPackets)
        },
        ReadEvent::ProcessFailed => (TlsClientView { closing: true, ..s }, ReadAction::Finish { echo: false }),
        ReadEvent::Processed => (s, ReadAction::ReadPlaintext),
        ReadEvent::Plaintext { len, error } => match error {
            Some(aborted) => (
                TlsClientView { closing: true, clean_closure: aborted },
                ReadAction::Finish { echo: len > 0 },
            ),
            None => (s, ReadAction::Finish { echo: len > 0 }),
        },
    }
}

/// The exit code when the connection has closed: 0 after a clean closure,
/// 1 otherwise; `None` while it is open.
pub open spec fn spec_exit_code(s: TlsClientView) -> Option<i32> {
    if s.closing {
        if s.clean_closure {
            Some(0)
        } else {
            Some(1)
        }
    } else {
        None
    }
}

impl TlsClient {
    /// A fresh connection: open, not cleanly closed.
    pub fn new() -> (c: TlsClient)
        ensures
            c@ == (TlsClientView { closing: false, clean_closure: false }),
    {
        TlsClient { closing: false, clean_closure: false }
    }

    /// Whether the connection is closing.
    pub fn is_closed(&self) -> (r: bool)
        ensures
            r == self@.closing,
    {
        self.closing
    }

    /// Whether the connection closed cleanly.
    pub fn is_clean(&self) -> (r: bool)
        ensures
            r == self@.clean_closure,
    {
        self.clean_closure
    }

    /// One step of reading from the peer: a failed TLS read or failed
    /// processing closes the connection; end of stream closes it cleanly;
    /// data goes on to processing, processing to reading plaintext; the
    /// plaintext is echoed when there is any, and an error reading it closes
    /// the connection, cleanly exactly when the error is a connection abort.
    pub fn do_read(&mut self, ev: ReadEvent) -> (a: ReadAction)
        ensures
            (final(self)@, a) == spec_read_step(old(self)@, ev),
    {
        match ev {
            ReadEvent::TlsReadFailed => {
                self.closing = true;
                ReadAction::Finish { echo: false }
            },
            ReadEvent::TlsRead(n) => {
                if n == 0 {
                    self.closing = true;
                    self.clean_closure = true;
                    ReadAction::Finish { echo: false }
                } else {
                    ReadAction::ProcessPackets
                }
            },
            ReadEvent::ProcessFailed => {
                self.closing = true;
                ReadAction::Finish { echo: false }
            },
            ReadEvent::Processed => ReadAction::ReadPlaintext,
            ReadEvent::Plaintext { len, error } => {
                match error {
                    Some(aborted) => {
                        self.clean_closure = aborted;
                        self.closing = true;
                    },
                    None => {},
                }
                ReadAction::Finish { echo: len > 0 }
            },
        }
    }

    /// After a readiness event has been handled: the exit code to stop with
    /// once the connection is closing, or `None` to wait again.
    pub fn ready(&self) -> (code: Option<i32>)
        ensures
            code == spec_exit_code(self@),
    {
        if self.closing {
            if self.clean_closure {
                Some(0)
            } else {
                Some(1)
            }
        } else {
            None
        }
    }
}

/// A closing connection stays closing, whatever step of reading follows.
pub proof fn lemma_closing_is_final(s: TlsClientView, ev: ReadEvent)
    requires
        s.closing,
    ensures
        spec_read_step(s, ev).0.closing,
{
}

/// Every step that stops reading because of a failure or end of stream
/// leaves the connection closing, and a step that goes on leaves the state
/// as it was.
pub proof fn lemma_read_step_outcome(s: TlsClientView, ev: ReadEvent)
    ensures
        spec_read_step(s, ev).1 !is Finish ==> spec_read_step(s, ev).0 == s,
        match ev {
            ReadEvent::TlsReadFailed | ReadEvent::ProcessFailed | ReadEvent::TlsRead(_) => spec_read_step(s, ev).1 is Finish ==> spec_read_step(s, ev).0.closing,
            ReadEvent::Plaintext { len: _, error } => error is Some ==> spec_read_step(s, ev).0.closing,
            ReadEvent::Processed => true,
        },
{
}

/// One step of reading, event by event: a TLS read of any positive number
/// of bytes keeps the state and goes on to processing; only a read of zero
/// bytes (end of stream) closes the connection, cleanly; a failed read or a
/// failed processing closes it without changing whether it closed cleanly;
/// processed records go on to reading plaintext; the plaintext is echoed
/// exactly when there is some, and an error reading it closes the
/// connection, cleanly exactly when the error is a connection abort.
pub proof fn lemma_read_step_law(s: TlsClientView, ev: ReadEvent)
    ensures
        ev matches ReadEvent::TlsRead(n) && n > 0 ==> spec_read_step(s, ev) == (s, ReadAction::ProcessPackets),
        ev matches ReadEvent::TlsRead(n) && n == 0 ==> spec_read_step(s, ev) == (
            TlsClientView { closing: true, clean_closure: true },
            ReadAction::Finish { echo: false },
        ),
        ev is TlsReadFailed || ev is ProcessFailed ==> spec_read_step(s, ev) == (
            TlsClientView { closing: true, clean_closure: s.clean_closure },
            ReadAction::Finish { echo: false },
        ),
        ev is Processed ==> spec_read_step(s, ev) == (s, ReadAction::ReadPlaintext),
        ev matches ReadEvent::Plaintext { len, error } ==> spec_read_step(s, ev).1 == (ReadAction::Finish {
            echo: len > 0,
        }) && match error {
            None => spec_read_step(s, ev).0 == s,
            Some(aborted) => spec_read_step(s, ev).0 == (TlsClientView { closing: true, clean_closure: aborted }),
        },
{
}

/// Which readiness to wait for.
#[derive(PartialEq, Eq, Structural, Clone, Copy, Debug)]
pub enum Interest {
    Readable,
    Writable,
    ReadWrite,
}

/// The readiness to wait for, from whether the session wants to read and
/// whether it wants to write: both when it wants both, writable when it
/// wants only to write, readable otherwise.
pub open spec fn spec_ready_interest(rd: bool, wr: bool) -> Interest {
    if rd && wr {
        Interest::ReadWrite
    } else if wr {
        Interest::Writable
    } else {
        Interest::Readable
    }
}

/// The readiness to wait for (see `spec_ready_interest`).
pub fn ready_interest(rd: bool, wr: bool) -> (r: Interest)
    ensures
        r == spec_ready_interest(rd, wr),
{
    if rd && wr {
        Interest::ReadWrite
    } else if wr {
        Interest::Writable
    } else {
        Interest::Readable
    }
}

/// The interest includes writing exactly when the session wants to write,
/// and reading whenever the session wants to read or does not want to
/// write.
pub proof fn lemma_interest_covers_wants(rd: bool, wr: bool)
    ensures
        (spec_ready_interest(rd, wr) != Interest::Readable) == wr,
        (spec_ready_interest(rd, wr) != Interest::Writable) == (rd || !wr),
{
}

/// A TLS protocol version a client may be limited to.
#[derive(PartialEq, Eq, Structural, Clone, Copy, Debug)]
pub enum TlsVersion {
    TLSv1_2,
    TLSv1_3,
}

/// The version a name stands for: `1.2` and `1.3`; no other name stands
/// for one.
pub open spec fn spec_version(name: Seq<char>) -> Option<TlsVersion> {
    if name == seq!['1', '.', '2'] {
        Some(TlsVersion::TLSv1_2)
    } else if name == seq!['1', '.', '3'] {
        Some(TlsVersion::TLSv1_3)
    } else {
        None
    }
}

/// The version `name` stands for, if any.
pub fn version_of(name: &String) -> (r: Option<TlsVersion>)
    ensures
        r == spec_version(name@),
{
    let v12 = String::from_str("1.2");
    let v13 = String::from_str("1.3");
    proof {
        reveal_strlit("1.2");
        reveal_strlit("1.3");
    }
    assert(v12@ =~= seq!['1', '.', '2']);
    assert(v13@ =~= seq!['1', '.', '3']);
    if name.eq(&v12) {
        Some(TlsVersion::TLSv1_2)
    } else if name.eq(&v13) {
        Some(TlsVersion::TLSv1_3)
    } else {
        None
    }
}

/// The versions named, in order. Every name must be `1.2` or `1.3` (any
/// other name is refused: "valid are '1.2' and '1.3'").
pub fn lookup_versions(versions: &Vec<String>) -> (out: Vec<TlsVersion>)
    requires
        forall|i: int| 0 <= i < versions.len() ==> (#[trigger] spec_version(versions@[i]@)) is Some,
    ensures
        out.len() == versions.len(),
        forall|i: int| 0 <= i < versions.len() ==> out@[i] == (#[trigger] spec_version(versions@[i]@))->0,
{
    let mut out: Vec<TlsVersion> = Vec::new();
    let mut i: usize = 0;
    while i < versions.len()
        invariant
            i <= versions.len(),
            out.len() == i,
            forall|j: int| 0 <= j < versions.len() ==> (#[trigger] spec_version(versions@[j]@)) is Some,
            forall|j: int| 0 <= j < i ==> out@[j] == (#[trigger] spec_version(versions@[j]@))->0,
        decreases versions.len() - i,
    {
        let v = version_of(&versions[i]);
        assert(spec_version(versions@[i as int]@) is Some);
        match v {
            Some(v) => out.push(v),
            None => {},
        }
        i = i + 1;
    }
    out
}

/// The text `s` in lower case, as `str::to_lowercase` gives it.
pub uninterp spec fn lowercase(s: Seq<char>) -> Seq<char>;

/// Whether every character is ASCII.
pub open spec fn ascii_chars(s: Seq<char>) -> bool {
    forall|i: int| 0 <= i < s.len() ==> (#[trigger] s[i] as u32) < 128
}

/// An ASCII upper-case letter in lower case; any other character as it is.
pub open spec fn ascii_lower_char(c: char) -> char {
    if 65 <= (c as u32) <= 90 {
        ((c as u32) + 32) as char
    } else {
        c
    }
}

/// An ASCII lower-case letter in upper case; any other character as it is.
pub open spec fn ascii_upper_char(c: char) -> char {
    if 97 <= (c as u32) <= 122 {
        ((c as u32) - 32) as char
    } else {
        c
    }
}

/// The text with its ASCII upper-case letters in lower case.
pub open spec fn ascii_lowercase(s: Seq<char>) -> Seq<char> {
    s.map_values(|c: char| ascii_lower_char(c))
}

/// The text with its ASCII lower-case letters in upper case.
pub open spec fn ascii_uppercase(s: Seq<char>) -> Seq<char> {
    s.map_values(|c: char| ascii_upper_char(c))
}

/// Calls `str::to_lowercase`; its result is named `lowercase` of the
/// argument's characters. Of an ASCII text it claims what Unicode's lower
/// case mapping gives ASCII (`"HELLO".to_lowercase() == "hello"` in the
/// method's documentation): `A` to `Z` become `a` to `z`, every other
/// character stays. Of other text nothing more is claimed.
#[verifier::external_body]
fn to_lowercase(s: &str) -> (r: String)
    ensures
        r@ == lowercase(s@),
        ascii_chars(s@) ==> r@ == ascii_lowercase(s@),
{
    s.to_lowercase()
}

/// The first position at which `names` holds `name`.
pub open spec fn spec_first_match(names: Seq<Seq<char>>, name: Seq<char>) -> Option<int>
    decreases names.len(),
{
    if names.len() == 0 {
        None
    } else if names[0] == name {
        Some(0)
    } else {
        match spec_first_match(names.drop_first(), name) {
            Some(i) => Some(i + 1),
            None => None,
        }
    }
}

/// The views of a list of strings.
pub open spec fn view_strings(v: Seq<String>) -> Seq<Seq<char>> {
    v.map_values(|s: String| s@)
}

/// The lower-case forms of a list of names.
pub open spec fn lowercase_all(v: Seq<Seq<char>>) -> Seq<Seq<char>> {
    v.map_values(|s: Seq<char>| lowercase(s))
}

/// Whether every text of the list is ASCII.
pub open spec fn all_ascii(v: Seq<Seq<char>>) -> bool {
    forall|i: int| 0 <= i < v.len() ==> ascii_chars(#[trigger] v[i])
}

/// The ASCII lower-case forms of a list of names.
pub open spec fn ascii_lowercase_all(v: Seq<Seq<char>>) -> Seq<Seq<char>> {
    v.map_values(|s: Seq<char>| ascii_lowercase(s))
}

/// ASCII case folding ignores case: a text and its upper-case and
/// lower-case forms fold to the same text, and all stay ASCII.
pub proof fn lemma_ascii_case_fold(s: Seq<char>)
    requires
        ascii_chars(s),
    ensures
        ascii_chars(ascii_uppercase(s)),
        ascii_chars(ascii_lowercase(s)),
        ascii_lowercase(ascii_uppercase(s)) == ascii_lowercase(s),
        ascii_lowercase(ascii_lowercase(s)) == ascii_lowercase(s),
{
    assert forall|i: int| 0 <= i < s.len() implies (#[trigger] ascii_uppercase(s)[i] as u32) < 128 by {
        assert((s[i] as u32) < 128);
    }
    assert forall|i: int| 0 <= i < s.len() implies (#[trigger] ascii_lowercase(s)[i] as u32) < 128 by {
        assert((s[i] as u32) < 128);
    }
    assert(ascii_lowercase(ascii_uppercase(s)) =~= ascii_lowercase(s));
    assert(ascii_lowercase(ascii_lowercase(s)) =~= ascii_lowercase(s));
}

/// For ASCII suite names and an ASCII name, looking up the name, its upper
/// case form or its lower case form finds the same suite.
pub proof fn lemma_suite_lookup_ignores_case(names: Seq<Seq<char>>, name: Seq<char>)
    requires
        all_ascii(names),
        ascii_chars(name),
    ensures
        ascii_chars(ascii_uppercase(name)),
        ascii_chars(ascii_lowercase(name)),
        spec_first_match(ascii_lowercase_all(names), ascii_lowercase(ascii_uppercase(name)))
            == spec_first_match(ascii_lowercase_all(names), ascii_lowercase(name)),
        spec_first_match(ascii_lowercase_all(names), ascii_lowercase(ascii_lowercase(name)))
            == spec_first_match(ascii_lowercase_all(names), ascii_lowercase(name)),
{
    lemma_ascii_case_fold(name);
}

/// The first position at which `lowered_names` holds `lowered`, both
/// already in lower case.
pub fn find_lowered(lowered_names: &Vec<String>, lowered: &String) -> (r: Option<usize>)
    ensures
        match r {
            Some(i) => spec_first_match(view_strings(lowered_names@), lowered@) == Some(i as int),
            None => spec_first_match(view_strings(lowered_names@), lowered@) is None,
        },
{
    let mut i: usize = 0;
    let ghost all = view_strings(lowered_names@);
    assert(all.skip(0) =~= all);
    while i < lowered_names.len()
        invariant
            i <= lowered_names.len(),
            all == view_strings(lowered_names@),
            spec_first_match(all, lowered@) == (match spec_first_match(all.skip(i as int), lowered@) {
                Some(j) => Some(j + i),
                None => None::<int>,
            }),
        decreases lowered_names.len() - i,
    {
        let ghost rest = all.skip(i as int);
        assert(rest.len() > 0);
        assert(rest[0] == lowered_names@[i as int]@);
        if lowered_names[i].eq(lowered) {
            return Some(i);
        }
        assert(rest.drop_first() =~= all.skip(i + 1));
        i = i + 1;
    }
    assert(all.skip(i as int) =~= Seq::<Seq<char>>::empty());
    None
}

/// The position of the cipher suite called `name` among the suites whose
/// names are `suite_names`, ignoring case: the first suite whose name in
/// lower case is `name` in lower case.
pub fn find_suite(suite_names: &Vec<String>, name: &str) -> (r: Option<usize>)
    ensures
        ascii_chars(name@) && all_ascii(view_strings(suite_names@)) ==> match r {
            Some(i) => spec_first_match(ascii_lowercase_all(view_strings(suite_names@)), ascii_lowercase(name@)) == Some(i as int),
            None => spec_first_match(ascii_lowercase_all(view_strings(suite_names@)), ascii_lowercase(name@)) is None,
        },
        match r {
            Some(i) => spec_first_match(lowercase_all(view_strings(suite_names@)), lowercase(name@)) == Some(i as int),
            None => spec_first_match(lowercase_all(view_strings(suite_names@)), lowercase(name@)) is None,
        },
{
    let mut lowered: Vec<String> = Vec::new();
    let mut i: usize = 0;
    while i < suite_names.len()
        invariant
            i <= suite_names.len(),
            lowered.len() == i,
            forall|j: int| 0 <= j < i ==> #[trigger] lowered@[j]@ == lowercase(suite_names@[j]@),
            forall|j: int| 0 <= j < i && ascii_chars(suite_names@[j]@) ==> #[trigger] lowered@[j]@ == ascii_lowercase(suite_names@[j]@),
        decreases suite_names.len() - i,
    {
        lowered.push(to_lowercase(suite_names[i].as_str()));
        i = i + 1;
    }
    assert(view_strings(lowered@) =~= lowercase_all(view_strings(suite_names@)));
    proof {
        if all_ascii(view_strings(suite_names@)) {
            assert forall|j: int| 0 <= j < lowered.len() implies ascii_chars(#[trigger] suite_names@[j]@) by {
                assert(view_strings(suite_names@)[j] == suite_names@[j]@);
            }
            assert(lowercase_all(view_strings(suite_names@)) =~= ascii_lowercase_all(view_strings(suite_names@)));
        }
    }
    let target = to_lowercase(name);
    find_lowered(&lowered, &target)
}

/// Whether the suite called `name` is among `suite_names`, ignoring case.
pub open spec fn spec_suite_known(suite_names: Seq<String>, name: Seq<char>) -> bool {
    spec_first_match(lowercase_all(view_strings(suite_names)), lowercase(name)) is Some
}

/// The positions of the cipher suites named, in order, among
/// `suite_names`. Every name must be known (an unknown one is refused:
/// "cannot look up ciphersuite").
pub fn lookup_suites(suite_names: &Vec<String>, suites: &Vec<String>) -> (out: Vec<usize>)
    requires
        forall|i: int| 0 <= i < suites.len() ==> #[trigger] spec_suite_known(suite_names@, suites@[i]@),
    ensures
        out.len() == suites.len(),
        forall|i: int|
            0 <= i < suites.len() ==> Some(out@[i] as int) == #[trigger] spec_first_match(
                lowercase_all(view_strings(suite_names@)),
                lowercase(suites@[i]@),
            ),
{
    let mut out: Vec<usize> = Vec::new();
    let mut i: usize = 0;
    while i < suites.len()
        invariant
            i <= suites.len(),
            out.len() == i,
            forall|j: int| 0 <= j < suites.len() ==> #[trigger] spec_suite_known(suite_names@, suites@[j]@),
            forall|j: int|
                0 <= j < i ==> Some(out@[j] as int) == #[trigger] spec_first_match(
                    lowercase_all(view_strings(suite_names@)),
                    lowercase(suites@[j]@),
                ),
        decreases suites.len() - i,
    {
        assert(spec_suite_known(suite_names@, suites@[i as int]@));
        match find_suite(suite_names, suites[i].as_str()) {
            Some(k) => out.push(k),
            None => {},
        }
        i = i + 1;
    }
    out
}

/// Of the addresses a host name resolves to, the position of the first IPv4
/// one; `is_v4` tells for each address whether it is IPv4. There must be
/// one (resolving a host with none is refused).
pub fn lookup_ipv4(is_v4: &Vec<bool>) -> (r: usize)
    requires
        exists|i: int| 0 <= i < is_v4.len() && is_v4@[i],
    ensures
        r < is_v4.len(),
        is_v4@[r as int],
        forall|j: int| 0 <= j < r ==> !is_v4@[j],
{
    let mut i: usize = 0;
    while i < is_v4.len()
        invariant
            i <= is_v4.len(),
            forall|j: int| 0 <= j < i ==> !is_v4@[j],
            exists|k: int| 0 <= k < is_v4.len() && is_v4@[k],
        decreases is_v4.len() - i,
    {
        if is_v4[i] {
            return i;
        }
        i = i + 1;
    }
    i
}

} // verus!
