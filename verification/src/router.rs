//! Routing: which module a name reaches, and how a query's path names a
//! module.
use vstd::prelude::*;
use vstd::utf8::{encode_utf8, is_char_boundary, is_continuation_byte, valid_utf8};
use crate::module::AppModule;

verus! {

/// The name no module may take: it is kept for the node's own queries.
pub open spec fn reserved_name() -> Seq<char> {
    "rapido"@
}

/// Whether two texts are equal.
pub fn str_eq(a: &str, b: &str) -> (r: bool)
    ensures
        r == (a@ == b@),
{
    let x = a.as_bytes();
    let y = b.as_bytes();
    proof {
        vstd::utf8::encode_utf8_decode_utf8(a@);
        vstd::utf8::encode_utf8_decode_utf8(b@);
    }
    assert(x@ == encode_utf8(a@));
    assert(y@ == encode_utf8(b@));
    if x.len() != y.len() {
        return false;
    }
    let mut i: usize = 0;
    while i < x.len()
        invariant
            i <= x@.len(),
            x@.len() == y@.len(),
            x@ == encode_utf8(a@),
            y@ == encode_utf8(b@),
            x@.subrange(0, i as int) == y@.subrange(0, i as int),
        decreases x@.len() - i,
    {
        if x[i] != y[i] {
            assert(x@[i as int] != y@[i as int]);
            return false;
        }
        assert(x@.subrange(0, i + 1) == x@.subrange(0, i as int).push(x@[i as int]));
        assert(y@.subrange(0, i + 1) == y@.subrange(0, i as int).push(y@[i as int]));
        i = i + 1;
    }
    assert(x@ == x@.subrange(0, x@.len() as int));
    assert(y@ == y@.subrange(0, y@.len() as int));
    true
}

/// The position of the module that a name reaches: the first module of
/// the list with that name.
pub open spec fn route<M: AppModule>(modules: Seq<M>, name: Seq<char>) -> Option<int>
    decreases modules.len(),
{
    if modules.len() == 0 {
        None
    } else {
        match route(modules.drop_last(), name) {
            Some(i) => Some(i),
            None => if modules.last().spec_name() == name {
                Some(modules.len() - 1)
            } else {
                None
            },
        }
    }
}

/// A name reaches position `i` exactly when the module there has the name
/// and no module before it has.
pub proof fn lemma_route<M: AppModule>(modules: Seq<M>, name: Seq<char>)
    ensures
        match route(modules, name) {
            Some(i) => 0 <= i < modules.len() && modules[i].spec_name() == name && forall|j: int|
                0 <= j < i ==> (#[trigger] modules[j]).spec_name() != name,
            None => forall|j: int|
                0 <= j < modules.len() ==> (#[trigger] modules[j]).spec_name() != name,
        },
    decreases modules.len(),
{
    if modules.len() > 0 {
        let front = modules.drop_last();
        lemma_route(front, name);
        match route(front, name) {
            Some(i) => {
                assert forall|j: int| 0 <= j < i implies (#[trigger] modules[j]).spec_name()
                    != name by {
                    assert(front[j].spec_name() != name);
                }
                assert(front[i] == modules[i]);
            },
            None => {
                assert forall|j: int| 0 <= j < modules.len() - 1 implies (
                #[trigger] modules[j]).spec_name() != name by {
                    assert(front[j].spec_name() != name);
                }
            },
        }
    }
}

/// The modules of a list without those whose name an earlier one has.
pub open spec fn keep_first<M: AppModule>(modules: Seq<M>) -> Seq<M>
    decreases modules.len(),
{
    if modules.len() == 0 {
        Seq::empty()
    } else {
        let front = keep_first(modules.drop_last());
        if route(front, modules.last().spec_name()).is_some() {
            front
        } else {
            front.push(modules.last())
        }
    }
}

/// Whether a module of the list has the reserved name.
pub open spec fn has_reserved<M: AppModule>(modules: Seq<M>) -> bool {
    exists|i: int| 0 <= i < modules.len() && (#[trigger] modules[i]).spec_name() == reserved_name()
}

/// No two modules of the list have one name.
pub open spec fn distinct_names<M: AppModule>(modules: Seq<M>) -> bool {
    forall|i: int, j: int|
        0 <= i < j < modules.len() ==> (#[trigger] modules[i]).spec_name() != (
        #[trigger] modules[j]).spec_name()
}

/// First come, first served: under every name, the registry made of a list
/// holds the first module of the list with that name, and holds no other
/// module of that name.
pub proof fn lemma_first_come_wins<M: AppModule>(modules: Seq<M>, name: Seq<char>)
    ensures
        distinct_names(keep_first(modules)),
        match route(modules, name) {
            Some(i) => route(keep_first(modules), name).is_some() && keep_first(
                modules,
            )[route(keep_first(modules), name).unwrap()] == modules[i],
            None => route(keep_first(modules), name).is_none(),
        },
    decreases modules.len(),
{
    if modules.len() > 0 {
        let front = modules.drop_last();
        let last = modules.last();
        let kept = keep_first(front);
        lemma_first_come_wins(front, name);
        lemma_first_come_wins(front, last.spec_name());
        lemma_route(kept, last.spec_name());
        lemma_route(kept, name);
        lemma_route(front, name);
        lemma_route(modules, name);
        let all = keep_first(modules);
        if route(kept, last.spec_name()).is_some() {
            assert(all == kept);
        } else {
            assert(all == kept.push(last));
            assert(all.drop_last() == kept);
            assert forall|i: int, j: int| 0 <= i < j < all.len() implies (
            #[trigger] all[i]).spec_name() != (#[trigger] all[j]).spec_name() by {
                if j < kept.len() {
                    assert(kept[i].spec_name() != kept[j].spec_name());
                } else {
                    assert(kept[i].spec_name() != last.spec_name());
                }
            }
        }
    }
}

/// The registry made of a list holds a reserved name exactly when the list
/// does.
pub proof fn lemma_keep_first_reserved<M: AppModule>(modules: Seq<M>)
    ensures
        has_reserved(keep_first(modules)) == has_reserved(modules),
{
    let name = reserved_name();
    lemma_first_come_wins(modules, name);
    lemma_route(modules, name);
    lemma_route(keep_first(modules), name);
    if has_reserved(modules) {
        let i = choose|i: int| 0 <= i < modules.len() && (#[trigger] modules[i]).spec_name() == name;
        assert(route(modules, name).is_some());
        let k = route(keep_first(modules), name).unwrap();
        assert(keep_first(modules)[k].spec_name() == name);
    }
    if has_reserved(keep_first(modules)) {
        let kept = keep_first(modules);
        let i = choose|i: int| 0 <= i < kept.len() && (#[trigger] kept[i]).spec_name() == name;
        assert(route(kept, name).is_some());
    }
}

/// The position of the first byte `b` in a byte string.
pub open spec fn index_of_byte(bytes: Seq<u8>, b: u8) -> Option<int>
    decreases bytes.len(),
{
    if bytes.len() == 0 {
        None
    } else if bytes[0] == b {
        Some(0)
    } else {
        match index_of_byte(bytes.drop_first(), b) {
            Some(i) => Some(i + 1),
            None => None,
        }
    }
}

/// The first byte `b` is where it is found with no `b` before it.
pub proof fn lemma_index_of_byte(bytes: Seq<u8>, b: u8)
    ensures
        match index_of_byte(bytes, b) {
            Some(i) => 0 <= i < bytes.len() && bytes[i] == b && forall|j: int|
                0 <= j < i ==> bytes[j] != b,
            None => forall|j: int| 0 <= j < bytes.len() ==> bytes[j] != b,
        },
    decreases bytes.len(),
{
    if bytes.len() > 0 && bytes[0] != b {
        let rest = bytes.drop_first();
        lemma_index_of_byte(rest, b);
        match index_of_byte(rest, b) {
            Some(i) => {
                assert forall|j: int| 0 <= j < i + 1 implies bytes[j] != b by {
                    if j > 0 {
                        assert(rest[j - 1] != b);
                    }
                }
            },
            None => {
                assert forall|j: int| 0 <= j < bytes.len() implies bytes[j] != b by {
                    if j > 0 {
                        assert(rest[j - 1] != b);
                    }
                }
            },
        }
    }
}

/// How a query's path, given by its bytes, names a module and the path
/// within the module. An empty path names none, and neither does one that
/// starts with `/`. A path without `/` names a module and its root `/`.
/// Any other path is split before its first `/`.
pub open spec fn parse_path(bytes: Seq<u8>) -> Option<(Seq<u8>, Seq<u8>)> {
    match index_of_byte(bytes, 0x2f) {
        None => if bytes.len() == 0 {
            None
        } else {
            Some((bytes, seq![0x2fu8]))
        },
        Some(i) => if i == 0 {
            None
        } else {
            Some((bytes.subrange(0, i), bytes.subrange(i, bytes.len() as int)))
        },
    }
}

/// Parse a query route. Routes have the form `appname/somepath`, where
/// `appname` is the name of a module and `/somepath` is a path of the
/// module's own. To reach the module's root, use `appname/` or `appname`.
/// Returns the name and the path that remains.
pub fn parse_abci_query_path<'a>(req_path: &'a str) -> (r: Option<(&'a str, &'a str)>)
    ensures
        r.is_some() == parse_path(encode_utf8(req_path@)).is_some(),
        r.is_some() ==> (encode_utf8(r.unwrap().0@), encode_utf8(r.unwrap().1@)) == parse_path(
            encode_utf8(req_path@),
        ).unwrap(),
{
    let bytes = req_path.as_bytes();
    let n: usize = bytes.len();
    proof {
        lemma_index_of_byte(bytes@, 0x2f);
        vstd::utf8::encode_utf8_valid_utf8(req_path@);
    }
    let mut i: usize = 0;
    while i < n && bytes[i] != 0x2f
        invariant
            i <= n,
            n == bytes@.len(),
            forall|j: int| 0 <= j < i ==> bytes@[j] != 0x2f,
        decreases n - i,
    {
        i = i + 1;
    }
    if i == n {
        if n == 0 {
            return None;
        }
        proof {
            reveal_strlit("/");
            assert(vstd::utf8::is_ascii_chars("/"@));
            vstd::utf8::is_ascii_chars_encode_utf8("/"@);
            assert(encode_utf8("/"@) == seq![0x2fu8]);
        }
        return Some((req_path, "/"));
    }
    if i == 0 {
        return None;
    }
    proof {
        let b: u8 = 0x2f;
        assert(!is_continuation_byte(b)) by {
            assert(b & 0xC0 != 0x80) by (bit_vector)
                requires
                    b == 0x2f,
            ;
        }
        vstd::utf8::is_char_boundary_iff_not_is_continuation_byte(bytes@, i as int);
    }
    let (name, rest) = req_path.split_at(i);
    Some((name, rest))
}

} // verus!
