//! A counter application: each user keeps a counter in the store and may
//! add to it, subtract from it, and ask for it.
use vstd::prelude::*;
use vstd::bytes::{
    lemma_auto_spec_u16_to_from_le_bytes, spec_u16_from_le_bytes, spec_u16_to_le_bytes,
    u16_from_le_bytes, u16_to_le_bytes,
};
use vstd::utf8::{decode_utf8, encode_utf8, valid_utf8};
use crate::codec::{
    append_slice, bytes_field, lemma_parse_bytes_field_unique, max_field_len, parse_bytes_field,
    read_bytes, write_bytes,
};
use crate::context::{Context, EventModel};
use crate::context::{attributes_of, event_kind};
use crate::encoding::{
    bytes_fit, concat, decimal, format_decimal, format_lower_hex, lower_hex, str_bytes,
    string_from_utf8,
};
use crate::module::{AppModule, QueryOutcome, StepOutcome, TxOutcome};
use crate::router::str_eq;
use crate::store::{lookup, storage_digest, Committed, Staged, Store, StoreView};

verus! {

/// Model for the counter, as it is kept in the store.
#[derive(Debug, Clone, Copy, PartialEq, Eq, Default)]
pub struct Counter {
    /// The current count.
    pub count: u16,
}

impl Counter {
    /// The counter advanced by `value`.
    pub fn add(&self, value: u16) -> (c: Self)
        requires
            self.count + value <= u16::MAX,
        ensures
            c.count == self.count + value,
    {
        Counter { count: self.count + value }
    }

    /// The counter taken back by `value`.
    pub fn subtract(&self, value: u16) -> (c: Self)
        requires
            value <= self.count,
        ensures
            c.count == self.count - value,
    {
        Counter { count: self.count - value }
    }

    /// The count in lower-case hexadecimal digits.
    pub fn to_hex(&self) -> (text: String)
        ensures
            text@ == lower_hex(self.count as nat),
    {
        format_lower_hex(self.count)
    }
}

/// The counter that bytes encode, or nothing: two bytes, low byte first.
pub open spec fn parse_counter(raw: Seq<u8>) -> Option<u16> {
    if raw.len() == 2 {
        Some(spec_u16_from_le_bytes(raw))
    } else {
        None
    }
}

/// Decoding an encoded counter gives the counter back.
pub proof fn lemma_counter_round_trip(count: u16)
    ensures
        parse_counter(spec_u16_to_le_bytes(count)) == Some(count),
{
    lemma_auto_spec_u16_to_from_le_bytes();
}

impl Counter {
    /// Encode the counter.
    pub fn to_bytes(&self) -> (raw: Vec<u8>)
        ensures
            raw@ == spec_u16_to_le_bytes(self.count),
    {
        u16_to_le_bytes(self.count)
    }

    /// Decode a counter; nothing unless there are exactly two bytes.
    pub fn from_bytes(raw: &[u8]) -> (r: Option<Counter>)
        ensures
            r.is_some() == parse_counter(raw@).is_some(),
            r.is_some() ==> r.unwrap().count == parse_counter(raw@).unwrap(),
    {
        if raw.len() == 2 {
            Some(Counter { count: u16_from_le_bytes(raw) })
        } else {
            None
        }
    }
}

/// Store for counters, by the name of the user.
pub struct CounterStore;

impl Store for CounterStore {
    // The key for the store.  Counter name
    type Key = String;

    // The actual value stored
    type Value = Counter;

    open spec fn spec_name(&self) -> Seq<char> {
        "counter.store"@
    }

    open spec fn spec_key_bytes(&self, key: &String) -> Seq<u8> {
        bytes_field(encode_utf8(key@))
    }

    open spec fn spec_value_bytes(&self, value: &Counter) -> Seq<u8> {
        spec_u16_to_le_bytes(value.count)
    }

    open spec fn key_fits(&self, key: &String) -> bool {
        encode_utf8(key@).len() <= max_field_len()
    }

    open spec fn value_fits(&self, value: &Counter) -> bool {
        true
    }

    open spec fn decodable(&self, raw: Seq<u8>) -> bool {
        parse_counter(raw).is_some()
    }

    open spec fn decodes_to(&self, raw: Seq<u8>, value: &Counter) -> bool {
        parse_counter(raw) == Some(value.count)
    }

    fn name(&self) -> (n: String) {
        proof {
            reveal_strlit("counter.store");
            crate::encoding::lemma_utf8_len("counter.store"@);
        }
        "counter.store".to_owned()
    }

    fn key_bytes(&self, key: &String) -> (raw: Vec<u8>) {
        let mut raw: Vec<u8> = Vec::new();
        write_bytes(&mut raw, key.as_str().as_bytes());
        raw
    }

    fn value_bytes(&self, value: &Counter) -> (raw: Vec<u8>) {
        value.to_bytes()
    }

    fn value_from_bytes(&self, raw: &[u8]) -> (r: Option<Counter>) {
        Counter::from_bytes(raw)
    }
}

/// A message of the counter application as mathematical values.
pub enum CounterMsg {
    /// Create a counter for a user.
    Create(Seq<char>),
    /// Add to the sender's counter.
    Add(u16),
    /// Subtract from the sender's counter.
    Subtract(u16),
}

/// Messages of the counter application.
#[derive(Debug, Clone, PartialEq, Eq)]
pub enum Msgs {
    /// Create a counter for a user.
    Create(String),
    /// Add to the sender's counter.
    Add(u16),
    /// Subtract from the sender's counter.
    Subtract(u16),
}

impl View for Msgs {
    type V = CounterMsg;

    open spec fn view(&self) -> CounterMsg {
        match self {
            Msgs::Create(name) => CounterMsg::Create(name@),
            Msgs::Add(v) => CounterMsg::Add(*v),
            Msgs::Subtract(v) => CounterMsg::Subtract(*v),
        }
    }
}

/// The encoding of a message: one byte for its kind, then the name as a
/// text or the amount in two bytes, low byte first.
pub open spec fn counter_msg_bytes(m: CounterMsg) -> Seq<u8> {
    match m {
        CounterMsg::Create(name) => seq![0u8] + bytes_field(encode_utf8(name)),
        CounterMsg::Add(v) => seq![1u8] + spec_u16_to_le_bytes(v),
        CounterMsg::Subtract(v) => seq![2u8] + spec_u16_to_le_bytes(v),
    }
}

/// The message that bytes encode, or nothing.
pub open spec fn parse_counter_msg(raw: Seq<u8>) -> Option<CounterMsg> {
    if raw.len() == 0 {
        None
    } else if raw[0] == 0 {
        match parse_bytes_field(raw.subrange(1, raw.len() as int)) {
            Some((name, rest)) => if rest.len() == 0 && valid_utf8(name) {
                Some(CounterMsg::Create(decode_utf8(name)))
            } else {
                None
            },
            None => None,
        }
    } else if raw[0] == 1 {
        match parse_counter(raw.subrange(1, raw.len() as int)) {
            Some(v) => Some(CounterMsg::Add(v)),
            None => None,
        }
    } else if raw[0] == 2 {
        match parse_counter(raw.subrange(1, raw.len() as int)) {
            Some(v) => Some(CounterMsg::Subtract(v)),
            None => None,
        }
    } else {
        None
    }
}

impl Msgs {
    /// Encode the message.
    pub fn encode(&self) -> (raw: Vec<u8>)
        requires
            self@ matches CounterMsg::Create(name) ==> encode_utf8(name).len() <= max_field_len(),
        ensures
            raw@ == counter_msg_bytes(self@),
    {
        let mut raw: Vec<u8> = Vec::new();
        match self {
            Msgs::Create(name) => {
                raw.push(0u8);
                write_bytes(&mut raw, name.as_str().as_bytes());
            },
            Msgs::Add(v) => {
                raw.push(1u8);
                let amount = u16_to_le_bytes(*v);
                append_slice(&mut raw, amount.as_slice());
            },
            Msgs::Subtract(v) => {
                raw.push(2u8);
                let amount = u16_to_le_bytes(*v);
                append_slice(&mut raw, amount.as_slice());
            },
        }
        assert(raw@ == counter_msg_bytes(self@));
        raw
    }

    /// Decode a message; nothing where the bytes are no message's
    /// encoding.
    pub fn decode(raw: &[u8]) -> (r: Option<Msgs>)
        ensures
            r.is_some() == parse_counter_msg(raw@).is_some(),
            r.is_some() ==> r.unwrap()@ == parse_counter_msg(raw@).unwrap(),
    {
        if raw.len() == 0 {
            return None;
        }
        let kind: u8 = raw[0];
        let rest = vstd::slice::slice_subrange(raw, 1, raw.len());
        if kind == 0 {
            assert(rest@.subrange(0, rest@.len() as int) == rest@);
            let (name, next) = match read_bytes(rest, 0) {
                Some(x) => x,
                None => { return None; },
            };
            if next != rest.len() {
                return None;
            }
            match string_from_utf8(name) {
                Some(name) => Some(Msgs::Create(name)),
                None => None,
            }
        } else if kind == 1 {
            match Counter::from_bytes(rest) {
                Some(c) => Some(Msgs::Add(c.count)),
                None => None,
            }
        } else if kind == 2 {
            match Counter::from_bytes(rest) {
                Some(c) => Some(Msgs::Subtract(c.count)),
                None => None,
            }
        } else {
            None
        }
    }
}

/// The digest under which the counter store keeps a user's name.
pub open spec fn counter_digest(name: Seq<char>) -> Seq<u8> {
    storage_digest("counter.store"@, bytes_field(encode_utf8(name)))
}

/// The count that a view holds under a user's name, or nothing where it
/// holds none that decodes.
pub open spec fn stored_count(staged: Staged, committed: Committed, name: Seq<char>) -> Option<u16> {
    match lookup(staged, committed, counter_digest(name)) {
        None => None,
        Some(raw) => parse_counter(raw),
    }
}

/// What is staged once a count has been put under a user's name.
pub open spec fn with_count(staged: Staged, name: Seq<char>, count: u16) -> Staged {
    staged.insert(counter_digest(name), Some(spec_u16_to_le_bytes(count)))
}

/// A transaction of the counter application that failed for a reason.
pub open spec fn counter_failed(log: Seq<char>, staged: Staged) -> TxOutcome {
    TxOutcome { ok: false, log, staged, events: Seq::empty() }
}

/// A transaction of the counter application that succeeded.
pub open spec fn counter_done(staged: Staged) -> TxOutcome {
    TxOutcome { ok: true, log: Seq::empty(), staged, events: Seq::empty() }
}

/// The state transition of the counter application.
///
/// A counter is created at zero under a name that has none yet. The sender
/// adds to and subtracts from the counter under the sender's own name; a
/// count never leaves the range of sixteen bits.
pub open spec fn counter_tx(
    sender: Seq<u8>,
    msg: Seq<u8>,
    staged: Staged,
    committed: Committed,
) -> TxOutcome {
    match parse_counter_msg(msg) {
        None => counter_failed("problem decoding the message"@, staged),
        Some(CounterMsg::Create(name)) => if stored_count(staged, committed, name).is_some() {
            counter_failed("User already exists"@, staged)
        } else {
            counter_done(with_count(staged, name, 0))
        },
        Some(CounterMsg::Add(val)) => if !valid_utf8(sender) || sender.len() > max_field_len() {
            counter_failed("user not found"@, staged)
        } else {
            match stored_count(staged, committed, decode_utf8(sender)) {
                None => counter_failed("user not found"@, staged),
                Some(count) => if count + val > u16::MAX {
                    counter_failed("can't count beyond the largest number"@, staged)
                } else {
                    counter_done(with_count(staged, decode_utf8(sender), (count + val) as u16))
                },
            }
        },
        Some(CounterMsg::Subtract(val)) => if !valid_utf8(sender) || sender.len()
            > max_field_len() {
            counter_failed("user not found"@, staged)
        } else {
            match stored_count(staged, committed, decode_utf8(sender)) {
                None => counter_failed("user not found"@, staged),
                Some(count) => if val > count {
                    counter_failed("can't have negative results from a subtract"@, staged)
                } else {
                    counter_done(with_count(staged, decode_utf8(sender), (count - val) as u16))
                },
            }
        },
    }
}

/// The answer of the counter application to a query: under the path `/`
/// the encoded counter of the user whose name the key spells.
pub open spec fn counter_query(
    path: Seq<char>,
    key: Seq<u8>,
    staged: Staged,
    committed: Committed,
) -> QueryOutcome {
    if !valid_utf8(key) || key.len() > max_field_len() {
        QueryOutcome { ok: false, log: "Error parsing the query key!"@, value: Seq::empty() }
    } else if path != "/"@ {
        QueryOutcome { ok: false, log: "nothing else to see here..."@, value: Seq::empty() }
    } else {
        match stored_count(staged, committed, decode_utf8(key)) {
            Some(count) => QueryOutcome {
                ok: true,
                log: Seq::empty(),
                value: spec_u16_to_le_bytes(count),
            },
            None => QueryOutcome {
                ok: false,
                log: "not count found for: "@ + decode_utf8(key),
                value: Seq::empty(),
            },
        }
    }
}

/// The counter application.
pub struct CounterHandler;

impl CounterHandler {
    /// The sender as the name of a user; nothing where the sender's bytes
    /// are no text, or too long a text.
    fn user_of(sender: Vec<u8>) -> (r: Option<String>)
        ensures
            r.is_some() == (valid_utf8(sender@) && sender@.len() <= max_field_len()),
            r.is_some() ==> r.unwrap()@ == decode_utf8(sender@) && encode_utf8(r.unwrap()@)
                == sender@,
    {
        if !bytes_fit(sender.as_slice()) {
            return None;
        }
        proof {
            if valid_utf8(sender@) {
                vstd::utf8::decode_utf8_encode_utf8(sender@);
            }
        }
        string_from_utf8(sender)
    }
}

impl AppModule for CounterHandler {
    open spec fn spec_name(&self) -> Seq<char> {
        "counter.app"@
    }

    open spec fn genesis(&self, staged: Staged, committed: Committed) -> StepOutcome {
        StepOutcome { ok: true, log: Seq::empty(), staged }
    }

    open spec fn tx_outcome(
        &self,
        sender: Seq<u8>,
        msg: Seq<u8>,
        staged: Staged,
        committed: Committed,
    ) -> TxOutcome {
        counter_tx(sender, msg, staged, committed)
    }

    open spec fn query_outcome(
        &self,
        path: Seq<char>,
        key: Seq<u8>,
        staged: Staged,
        committed: Committed,
    ) -> QueryOutcome {
        counter_query(path, key, staged, committed)
    }

    fn name(&self) -> (n: String) {
        "counter.app".to_owned()
    }

    fn initialize(&self, _view: &mut StoreView) -> (r: Result<(), String>) {
        Ok(())
    }

    fn handle_tx(&self, ctx: &mut Context, view: &mut StoreView) -> (r: Result<(), String>) {
        assert(ctx.spec_events() + Seq::<EventModel>::empty() == ctx.spec_events());
        let payload = ctx.payload();
        let msg = match Msgs::decode(payload.as_slice()) {
            Some(m) => m,
            None => { return Err("problem decoding the message".to_owned()); },
        };
        let store = CounterStore {  };
        match msg {
            Msgs::Create(name) => {
                proof {
                    let rest = payload@.subrange(1, payload@.len() as int);
                    lemma_parse_bytes_field_unique(rest);
                    vstd::utf8::decode_utf8_encode_utf8(parse_bytes_field(rest).unwrap().0);
                }
                if store.get(name.clone(), view).is_some() {
                    return Err("User already exists".to_owned());
                }
                store.put(name, Counter { count: 0 }, view);
                Ok(())
            },
            Msgs::Add(val) => {
                let user = match CounterHandler::user_of(ctx.sender()) {
                    Some(u) => u,
                    None => { return Err("user not found".to_owned()); },
                };
                match store.get(user.clone(), view) {
                    Some(cnt) => {
                        if val > u16::MAX - cnt.count {
                            return Err("can't count beyond the largest number".to_owned());
                        }
                        store.put(user, cnt.add(val), view);
                        Ok(())
                    },
                    None => Err("user not found".to_owned()),
                }
            },
            Msgs::Subtract(val) => {
                let user = match CounterHandler::user_of(ctx.sender()) {
                    Some(u) => u,
                    None => { return Err("user not found".to_owned()); },
                };
                match store.get(user.clone(), view) {
                    Some(cnt) => {
                        if val > cnt.count {
                            return Err("can't have negative results from a subtract".to_owned());
                        }
                        store.put(user, cnt.subtract(val), view);
                        Ok(())
                    },
                    None => Err("user not found".to_owned()),
                }
            },
        }
    }

    fn handle_query(&self, path: &str, key: Vec<u8>, view: &StoreView) -> (r: Result<
        Vec<u8>,
        String,
    >) {
        let user = match CounterHandler::user_of(key) {
            Some(u) => u,
            None => { return Err("Error parsing the query key!".to_owned()); },
        };
        if !str_eq(path, "/") {
            return Err("nothing else to see here...".to_owned());
        }
        let store = CounterStore {  };
        match store.get(user.clone(), view) {
            Some(c) => Ok(c.to_bytes()),
            None => Err(concat("not count found for: ", user.as_str())),
        }
    }
}

/// A bare count.
#[derive(Debug, Clone, Copy, PartialEq, Eq, Default)]
pub struct Count(pub u16);

impl Count {
    /// Count one more.
    pub fn inc(&mut self)
        requires
            old(self).0 < u16::MAX,
        ensures
            final(self).0 == old(self).0 + 1,
    {
        self.0 = self.0 + 1;
    }
}

/// Store for the one count of the counting example.
pub struct CountStore;

impl Store for CountStore {
    type Key = ();

    type Value = Count;

    open spec fn spec_name(&self) -> Seq<char> {
        "counter"@
    }

    open spec fn spec_key_bytes(&self, key: &()) -> Seq<u8> {
        Seq::empty()
    }

    open spec fn spec_value_bytes(&self, value: &Count) -> Seq<u8> {
        spec_u16_to_le_bytes(value.0)
    }

    open spec fn key_fits(&self, key: &()) -> bool {
        true
    }

    open spec fn value_fits(&self, value: &Count) -> bool {
        true
    }

    open spec fn decodable(&self, raw: Seq<u8>) -> bool {
        parse_counter(raw).is_some()
    }

    open spec fn decodes_to(&self, raw: Seq<u8>, value: &Count) -> bool {
        parse_counter(raw) == Some(value.0)
    }

    fn name(&self) -> (n: String) {
        proof {
            reveal_strlit("counter");
            crate::encoding::lemma_utf8_len("counter"@);
        }
        "counter".to_owned()
    }

    fn key_bytes(&self, key: &()) -> (raw: Vec<u8>) {
        Vec::new()
    }

    fn value_bytes(&self, value: &Count) -> (raw: Vec<u8>) {
        u16_to_le_bytes(value.0)
    }

    fn value_from_bytes(&self, raw: &[u8]) -> (r: Option<Count>) {
        match Counter::from_bytes(raw) {
            Some(c) => Some(Count(c.count)),
            None => None,
        }
    }
}

/// The digest under which the count is kept.
pub open spec fn count_digest() -> Seq<u8> {
    storage_digest("counter"@, Seq::empty())
}

/// The count that a view holds; zero where it holds none that decodes.
pub open spec fn current_count(staged: Staged, committed: Committed) -> u16 {
    match lookup(staged, committed, count_digest()) {
        None => 0,
        Some(raw) => match parse_counter(raw) {
            Some(n) => n,
            None => 0,
        },
    }
}

impl CountStore {
    /// The store of the count.
    pub fn new() -> (s: Self) {
        CountStore {  }
    }

    /// The count as the view holds it; zero where it holds none.
    pub fn get_count(&self, view: &StoreView) -> (c: Count)
        ensures
            c.0 == current_count(view.staged(), view.committed()),
    {
        match self.get((), view) {
            Some(c) => c,
            None => Count(0),
        }
    }

    /// Count one more.
    pub fn increment(&self, view: &mut StoreView)
        requires
            current_count(old(view).staged(), old(view).committed()) < u16::MAX,
        ensures
            final(view).staged() == old(view).staged().insert(
                count_digest(),
                Some(
                    spec_u16_to_le_bytes(
                        (current_count(old(view).staged(), old(view).committed()) + 1) as u16,
                    ),
                ),
            ),
            final(view).committed() == old(view).committed(),
    {
        let mut count = self.get_count(view);
        count.inc();
        self.put((), count, view);
    }
}

/// The event that tells of one more counted.
pub open spec fn counted() -> EventModel {
    EventModel {
        kind: event_kind("counter"@, "count"@),
        attributes: seq![(encode_utf8("added"@), encode_utf8("one"@))],
    }
}

/// The state transition of the counting example: every transaction counts
/// one more and tells of it by an event.
pub open spec fn count_tx(staged: Staged, committed: Committed) -> TxOutcome {
    if current_count(staged, committed) == u16::MAX {
        counter_failed("can't count beyond the largest number"@, staged)
    } else {
        TxOutcome {
            ok: true,
            log: Seq::empty(),
            staged: staged.insert(
                count_digest(),
                Some(spec_u16_to_le_bytes((current_count(staged, committed) + 1) as u16)),
            ),
            events: seq![counted()],
        }
    }
}

/// The answer of the counting example to a query: the count in words
/// under `/`, a greeting under `/random`.
pub open spec fn count_query(path: Seq<char>, staged: Staged, committed: Committed) -> QueryOutcome {
    if path == "/"@ {
        QueryOutcome {
            ok: true,
            log: Seq::empty(),
            value: encode_utf8("count is: "@ + decimal(current_count(staged, committed) as nat)),
        }
    } else if path == "/random"@ {
        QueryOutcome { ok: true, log: Seq::empty(), value: encode_utf8("hello there"@) }
    } else {
        QueryOutcome { ok: false, log: Seq::empty(), value: Seq::empty() }
    }
}

/// Answers with the count in words.
pub fn query_count(view: &StoreView) -> (r: Result<Vec<u8>, String>)
    ensures
        r.is_ok(),
        r.unwrap()@ == encode_utf8(
            "count is: "@ + decimal(current_count(view.staged(), view.committed()) as nat),
        ),
{
    let store = CountStore::new();
    let cnt = store.get_count(view);
    let number = format_decimal(cnt.0);
    let text = concat("count is: ", number.as_str());
    Ok(str_bytes(text.as_str()))
}

/// Answers with a greeting.
pub fn query_random() -> (r: Result<Vec<u8>, String>)
    ensures
        r.is_ok(),
        r.unwrap()@ == encode_utf8("hello there"@),
{
    Ok(str_bytes("hello there"))
}

/// The counting example: one count that every transaction raises.
pub struct CounterExample;

impl AppModule for CounterExample {
    open spec fn spec_name(&self) -> Seq<char> {
        "counter"@
    }

    open spec fn genesis(&self, staged: Staged, committed: Committed) -> StepOutcome {
        StepOutcome { ok: true, log: Seq::empty(), staged }
    }

    open spec fn tx_outcome(
        &self,
        sender: Seq<u8>,
        msg: Seq<u8>,
        staged: Staged,
        committed: Committed,
    ) -> TxOutcome {
        count_tx(staged, committed)
    }

    open spec fn query_outcome(
        &self,
        path: Seq<char>,
        key: Seq<u8>,
        staged: Staged,
        committed: Committed,
    ) -> QueryOutcome {
        count_query(path, staged, committed)
    }

    fn name(&self) -> (n: String) {
        "counter".to_owned()
    }

    fn initialize(&self, _view: &mut StoreView) -> (r: Result<(), String>) {
        Ok(())
    }

    fn handle_tx(&self, ctx: &mut Context, view: &mut StoreView) -> (r: Result<(), String>) {
        assert(ctx.spec_events() + Seq::<EventModel>::empty() == ctx.spec_events());
        let store = CountStore::new();
        if store.get_count(view).0 == u16::MAX {
            return Err("can't count beyond the largest number".to_owned());
        }
        store.increment(view);
        // Emit an event from this call
        let pairs: Vec<(&str, &str)> = vec![("added", "one")];
        ctx.dispatch_event("count", pairs.as_slice());
        proof {
            assert(attributes_of(pairs@) == seq![(encode_utf8("added"@), encode_utf8("one"@))]);
            assert(old(ctx).spec_events() + seq![counted()] == old(ctx).spec_events().push(
                counted(),
            ));
        }
        Ok(())
    }

    fn handle_query(&self, path: &str, _key: Vec<u8>, view: &StoreView) -> (r: Result<
        Vec<u8>,
        String,
    >) {
        if str_eq(path, "/") {
            query_count(view)
        } else if str_eq(path, "/random") {
            query_random()
        } else {
            Err(String::new())
        }
    }
}

} // verus!
