//! A small store of people, as a sample of a typed store.
use vstd::prelude::*;
use vstd::utf8::{decode_utf8, encode_utf8, valid_utf8};
use crate::codec::{
    bytes_field, lemma_parse_bytes_field_unique, max_field_len, parse_bytes_field, read_bytes,
    write_bytes,
};
use crate::context::{attributes_of, event_kind, Context, EventModel};
use crate::encoding::{lemma_utf8_len, string_from_utf8};
use crate::module::{AppModule, QueryOutcome, StepOutcome, TxOutcome};
use crate::router::str_eq;
use crate::store::{lookup, storage_digest, Committed, Staged, Store, StoreView};

verus! {

/// A person: a name and an age.
#[derive(Debug, Clone, PartialEq, Eq, Default)]
pub struct Person {
    /// The person's name.
    pub name: String,
    /// The person's age in years.
    pub age: u8,
}

/// The encoding of a person: the name as a text, then the age as one byte.
pub open spec fn person_bytes(name: Seq<char>, age: u8) -> Seq<u8> {
    bytes_field(encode_utf8(name)).push(age)
}

/// The person that bytes encode, as name and age, or nothing where the
/// bytes are no person's encoding.
pub open spec fn parse_person(raw: Seq<u8>) -> Option<(Seq<char>, u8)> {
    match parse_bytes_field(raw) {
        Some((name, rest)) => if rest.len() == 1 && valid_utf8(name) {
            Some((decode_utf8(name), rest[0]))
        } else {
            None
        },
        None => None,
    }
}

/// Decoding an encoded person gives the person back.
pub proof fn lemma_person_round_trip(name: Seq<char>, age: u8)
    requires
        encode_utf8(name).len() <= max_field_len(),
    ensures
        parse_person(person_bytes(name, age)) == Some((name, age)),
{
    let text = encode_utf8(name);
    assert(person_bytes(name, age) == bytes_field(text) + seq![age]);
    crate::codec::lemma_parse_bytes_field(text, seq![age]);
    vstd::utf8::encode_utf8_valid_utf8(name);
    vstd::utf8::encode_utf8_decode_utf8(name);
}

impl Person {
    /// Encode the person.
    pub fn to_bytes(&self) -> (raw: Vec<u8>)
        requires
            encode_utf8(self.name@).len() <= max_field_len(),
        ensures
            raw@ == person_bytes(self.name@, self.age),
    {
        let mut raw: Vec<u8> = Vec::new();
        write_bytes(&mut raw, self.name.as_str().as_bytes());
        raw.push(self.age);
        raw
    }

    /// Decode a person; nothing where the bytes are no person's encoding.
    pub fn from_bytes(raw: &[u8]) -> (r: Option<Person>)
        ensures
            r.is_some() == parse_person(raw@).is_some(),
            r.is_some() ==> (r.unwrap().name@, r.unwrap().age) == parse_person(raw@).unwrap(),
    {
        assert(raw@.subrange(0, raw@.len() as int) == raw@);
        let (name, next) = match read_bytes(raw, 0) {
            Some(x) => x,
            None => { return None; },
        };
        if raw.len() - next != 1 {
            return None;
        }
        let age: u8 = raw[next];
        match string_from_utf8(name) {
            Some(name) => Some(Person { name, age }),
            None => None,
        }
    }
}

/// A store of people by name.
pub struct MyStore;

impl Store for MyStore {
    type Key = String;

    type Value = Person;

    open spec fn spec_name(&self) -> Seq<char> {
        "mystore"@
    }

    open spec fn spec_key_bytes(&self, key: &String) -> Seq<u8> {
        bytes_field(encode_utf8(key@))
    }

    open spec fn spec_value_bytes(&self, value: &Person) -> Seq<u8> {
        person_bytes(value.name@, value.age)
    }

    open spec fn key_fits(&self, key: &String) -> bool {
        encode_utf8(key@).len() <= max_field_len()
    }

    open spec fn value_fits(&self, value: &Person) -> bool {
        encode_utf8(value.name@).len() <= max_field_len()
    }

    open spec fn decodable(&self, raw: Seq<u8>) -> bool {
        parse_person(raw).is_some()
    }

    open spec fn decodes_to(&self, raw: Seq<u8>, value: &Person) -> bool {
        parse_person(raw) == Some((value.name@, value.age))
    }

    fn name(&self) -> (n: String) {
        proof {
            reveal_strlit("mystore");
            lemma_utf8_len("mystore"@);
        }
        "mystore".to_owned()
    }

    fn key_bytes(&self, key: &String) -> (raw: Vec<u8>) {
        let mut raw: Vec<u8> = Vec::new();
        write_bytes(&mut raw, key.as_str().as_bytes());
        raw
    }

    fn value_bytes(&self, value: &Person) -> (raw: Vec<u8>) {
        value.to_bytes()
    }

    fn value_from_bytes(&self, raw: &[u8]) -> (r: Option<Person>) {
        Person::from_bytes(raw)
    }
}

/// A message of the person application as mathematical values.
pub enum PersonMsg {
    /// Create a person with a name and an age.
    CreatePerson(Seq<char>, u8),
    /// Raise the age of the person with a name by one year.
    IncPersonAge(Seq<char>),
}

/// Messages of the person application.
#[derive(Debug, Clone, PartialEq, Eq)]
pub enum Msgs {
    /// Create a person with a name and an age.
    CreatePerson(String, u8),
    /// Raise the age of the person with a name by one year.
    IncPersonAge(String),
}

impl View for Msgs {
    type V = PersonMsg;

    open spec fn view(&self) -> PersonMsg {
        match self {
            Msgs::CreatePerson(name, age) => PersonMsg::CreatePerson(name@, *age),
            Msgs::IncPersonAge(name) => PersonMsg::IncPersonAge(name@),
        }
    }
}

/// The encoding of a message: one byte for its kind, the name as a text,
/// and for a creation the age as one byte.
pub open spec fn person_msg_bytes(m: PersonMsg) -> Seq<u8> {
    match m {
        PersonMsg::CreatePerson(name, age) => seq![0u8] + person_bytes(name, age),
        PersonMsg::IncPersonAge(name) => seq![1u8] + bytes_field(encode_utf8(name)),
    }
}

/// The message that bytes encode, or nothing.
pub open spec fn parse_person_msg(raw: Seq<u8>) -> Option<PersonMsg> {
    if raw.len() == 0 {
        None
    } else if raw[0] == 0 {
        match parse_person(raw.subrange(1, raw.len() as int)) {
            Some((name, age)) => Some(PersonMsg::CreatePerson(name, age)),
            None => None,
        }
    } else if raw[0] == 1 {
        match parse_bytes_field(raw.subrange(1, raw.len() as int)) {
            Some((name, rest)) => if rest.len() == 0 && valid_utf8(name) {
                Some(PersonMsg::IncPersonAge(decode_utf8(name)))
            } else {
                None
            },
            None => None,
        }
    } else {
        None
    }
}

/// The name of a message that decodes is short enough to encode.
pub proof fn lemma_parsed_name_fits(raw: Seq<u8>)
    requires
        parse_person_msg(raw).is_some(),
    ensures
        match parse_person_msg(raw).unwrap() {
            PersonMsg::CreatePerson(name, _) => encode_utf8(name).len() <= max_field_len(),
            PersonMsg::IncPersonAge(name) => encode_utf8(name).len() <= max_field_len(),
        },
{
    let rest = raw.subrange(1, raw.len() as int);
    lemma_parse_bytes_field_unique(rest);
    vstd::utf8::decode_utf8_encode_utf8(parse_bytes_field(rest).unwrap().0);
}

/// A person that decodes has a name short enough to encode.
pub proof fn lemma_parsed_person_fits(raw: Seq<u8>)
    requires
        parse_person(raw).is_some(),
    ensures
        encode_utf8(parse_person(raw).unwrap().0).len() <= max_field_len(),
{
    lemma_parse_bytes_field_unique(raw);
    vstd::utf8::decode_utf8_encode_utf8(parse_bytes_field(raw).unwrap().0);
}

impl Msgs {
    /// Encode the message.
    pub fn encode(&self) -> (raw: Vec<u8>)
        requires
            match self@ {
                PersonMsg::CreatePerson(name, _) => encode_utf8(name).len() <= max_field_len(),
                PersonMsg::IncPersonAge(name) => encode_utf8(name).len() <= max_field_len(),
            },
        ensures
            raw@ == person_msg_bytes(self@),
    {
        let mut raw: Vec<u8> = Vec::new();
        match self {
            Msgs::CreatePerson(name, age) => {
                raw.push(0u8);
                write_bytes(&mut raw, name.as_str().as_bytes());
                raw.push(*age);
            },
            Msgs::IncPersonAge(name) => {
                raw.push(1u8);
                write_bytes(&mut raw, name.as_str().as_bytes());
            },
        }
        assert(raw@ == person_msg_bytes(self@));
        raw
    }

    /// Decode a message; nothing where the bytes are no message's
    /// encoding.
    pub fn decode(raw: &[u8]) -> (r: Option<Msgs>)
        ensures
            r.is_some() == parse_person_msg(raw@).is_some(),
            r.is_some() ==> r.unwrap()@ == parse_person_msg(raw@).unwrap(),
    {
        if raw.len() == 0 {
            return None;
        }
        let kind: u8 = raw[0];
        let rest = vstd::slice::slice_subrange(raw, 1, raw.len());
        if kind == 0 {
            match Person::from_bytes(rest) {
                Some(p) => Some(Msgs::CreatePerson(p.name, p.age)),
                None => None,
            }
        } else if kind == 1 {
            assert(rest@.subrange(0, rest@.len() as int) == rest@);
            let (name, next) = match read_bytes(rest, 0) {
                Some(x) => x,
                None => { return None; },
            };
            if next != rest.len() {
                return None;
            }
            match string_from_utf8(name) {
                Some(name) => Some(Msgs::IncPersonAge(name)),
                None => None,
            }
        } else {
            None
        }
    }
}

/// The name of the person application.
pub open spec fn person_app_name() -> Seq<char> {
    "person_app"@
}

/// The person that a view holds under a name, as name and age, or nothing
/// where it holds none that decodes.
pub open spec fn stored_person(staged: Staged, committed: Committed, name: Seq<char>) -> Option<
    (Seq<char>, u8),
> {
    match lookup(staged, committed, storage_digest("mystore"@, bytes_field(encode_utf8(name)))) {
        None => None,
        Some(raw) => parse_person(raw),
    }
}

/// What is staged once a person has been put under a name.
pub open spec fn with_person(staged: Staged, key: Seq<char>, name: Seq<char>, age: u8) -> Staged {
    staged.insert(
        storage_digest("mystore"@, bytes_field(encode_utf8(key))),
        Some(person_bytes(name, age)),
    )
}

/// The event that tells of a person added.
pub open spec fn person_added(name: Seq<char>) -> EventModel {
    EventModel {
        kind: event_kind(person_app_name(), "person"@),
        attributes: seq![(encode_utf8("added"@), encode_utf8(name))],
    }
}

/// The state transition of the person application.
///
/// A person is created under a name that no person has yet, and the
/// creation is told by an event. The age of a person that exists is raised
/// by one year, up to 255.
pub open spec fn person_tx(
    sender: Seq<u8>,
    msg: Seq<u8>,
    staged: Staged,
    committed: Committed,
) -> TxOutcome {
    match parse_person_msg(msg) {
        None => TxOutcome {
            ok: false,
            log: "problem decoding the message"@,
            staged,
            events: Seq::empty(),
        },
        Some(PersonMsg::CreatePerson(name, age)) => if stored_person(
            staged,
            committed,
            name,
        ).is_some() {
            TxOutcome { ok: false, log: "person already exists"@, staged, events: Seq::empty() }
        } else {
            TxOutcome {
                ok: true,
                log: Seq::empty(),
                staged: with_person(staged, name, name, age),
                events: seq![person_added(name)],
            }
        },
        Some(PersonMsg::IncPersonAge(name)) => match stored_person(staged, committed, name) {
            None => TxOutcome { ok: false, log: "person not found"@, staged, events: Seq::empty() },
            Some((stored, age)) => if age == 255 {
                TxOutcome {
                    ok: false,
                    log: "person cannot grow older"@,
                    staged,
                    events: Seq::empty(),
                }
            } else {
                TxOutcome {
                    ok: true,
                    log: Seq::empty(),
                    staged: with_person(staged, name, stored, (age + 1) as u8),
                    events: Seq::empty(),
                }
            },
        },
    }
}

/// The answer of the person application to a query: under the path `/`
/// the encoded person whose name the key spells, as committed; under
/// `/random` a fixed byte.
pub open spec fn person_query(
    path: Seq<char>,
    key: Seq<u8>,
    staged: Staged,
    committed: Committed,
) -> QueryOutcome {
    if path == "/"@ {
        if !valid_utf8(key) || key.len() > max_field_len() {
            QueryOutcome { ok: false, log: "bad person key"@, value: Seq::empty() }
        } else {
            match stored_person(Map::empty(), committed, decode_utf8(key)) {
                Some((name, age)) => QueryOutcome {
                    ok: true,
                    log: Seq::empty(),
                    value: person_bytes(name, age),
                },
                None => QueryOutcome { ok: false, log: "person not found"@, value: Seq::empty() },
            }
        }
    } else if path == "/random"@ {
        QueryOutcome { ok: true, log: Seq::empty(), value: seq![1u8] }
    } else {
        QueryOutcome { ok: false, log: Seq::empty(), value: Seq::empty() }
    }
}

/// The person application: it keeps people by name.
pub struct PersonHandler;

impl AppModule for PersonHandler {
    open spec fn spec_name(&self) -> Seq<char> {
        person_app_name()
    }

    open spec fn genesis(&self, staged: Staged, committed: Committed) -> StepOutcome {
        StepOutcome { ok: true, log: Seq::empty(), staged }
    }

    open spec fn tx_outcome(
        &self,
        sender: Seq<u8>,
        msg: Seq<u8>,
        staged: Staged,
        committed: Committed,
    ) -> TxOutcome {
        person_tx(sender, msg, staged, committed)
    }

    open spec fn query_outcome(
        &self,
        path: Seq<char>,
        key: Seq<u8>,
        staged: Staged,
        committed: Committed,
    ) -> QueryOutcome {
        person_query(path, key, staged, committed)
    }

    fn name(&self) -> (n: String) {
        "person_app".to_owned()
    }

    fn initialize(&self, _view: &mut StoreView) -> (r: Result<(), String>) {
        Ok(())
    }

    fn handle_tx(&self, ctx: &mut Context, cache: &mut StoreView) -> (r: Result<(), String>) {
        assert(ctx.spec_events() + Seq::<EventModel>::empty() == ctx.spec_events());
        let payload = ctx.payload();
        let msg = match Msgs::decode(payload.as_slice()) {
            Some(m) => m,
            None => { return Err("problem decoding the message".to_owned()); },
        };
        proof {
            lemma_parsed_name_fits(payload@);
        }
        let store = MyStore {  };
        match msg {
            Msgs::CreatePerson(name, age) => {
                if store.get(name.clone(), cache).is_some() {
                    return Err("person already exists".to_owned());
                }
                let pairs: Vec<(&str, &str)> = vec![("added", name.as_str())];
                ctx.dispatch_event("person", pairs.as_slice());
                proof {
                    assert(attributes_of(pairs@) == seq![
                        (encode_utf8("added"@), encode_utf8(name@)),
                    ]);
                    assert(old(ctx).spec_events() + seq![person_added(name@)] == old(
                        ctx,
                    ).spec_events().push(person_added(name@)));
                }
                store.put(name.clone(), Person { name: name.clone(), age }, cache);
                Ok(())
            },
            Msgs::IncPersonAge(name) => {
                let ghost raw = lookup(
                    cache.staged(),
                    cache.committed(),
                    storage_digest("mystore"@, bytes_field(encode_utf8(name@))),
                );
                match store.get(name.clone(), cache) {
                    Some(p) => {
                        proof {
                            lemma_parsed_person_fits(raw.unwrap());
                        }
                        if p.age == 255 {
                            return Err("person cannot grow older".to_owned());
                        }
                        store.put(name, Person { name: p.name, age: p.age + 1 }, cache);
                        Ok(())
                    },
                    None => Err("person not found".to_owned()),
                }
            },
        }
    }

    fn handle_query(&self, path: &str, key: Vec<u8>, view: &StoreView) -> (r: Result<
        Vec<u8>,
        String,
    >) {
        if str_eq(path, "/") {
            if !crate::encoding::bytes_fit(key.as_slice()) {
                return Err("bad person key".to_owned());
            }
            let name = match string_from_utf8(key) {
                Some(n) => n,
                None => { return Err("bad person key".to_owned()); },
            };
            proof {
                vstd::utf8::decode_utf8_encode_utf8(key@);
            }
            let store = MyStore {  };
            let ghost raw = lookup(
                Map::empty(),
                view.committed(),
                storage_digest("mystore"@, bytes_field(encode_utf8(name@))),
            );
            match store.query(name, view) {
                Some(p) => {
                    proof {
                        lemma_parsed_person_fits(raw.unwrap());
                    }
                    Ok(p.to_bytes())
                },
                None => Err("person not found".to_owned()),
            }
        } else if str_eq(path, "/random") {
            let mut value: Vec<u8> = Vec::new();
            value.push(1u8);
            Ok(value)
        } else {
            Err(String::new())
        }
    }
}

} // verus!
