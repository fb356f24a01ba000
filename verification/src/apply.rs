//! What applying the emitted `add` operations means on the JSON tree:
//! the mathematical model of the pointer layer that consumers of the
//! webhook's patches run, and the facts about it the idempotence laws
//! rest on.

use vstd::prelude::*;

use crate::json::{jv_get, obj_lookup, Json};
use crate::patch::PatchView;
use crate::policies::resource_limits::{all_digits, digit_val, digits_val, is_digit};
use crate::strutil::{dec_str, digit_char};

verus! {

/// `fields` with `key` bound to `value`: the first binding is replaced in
/// place, a missing key is appended.
pub open spec fn obj_set(fields: Seq<(Seq<char>, Json)>, key: Seq<char>, value: Json) -> Seq<
    (Seq<char>, Json),
>
    decreases fields.len(),
{
    if fields.len() == 0 {
        seq![(key, value)]
    } else if fields[0].0 == key {
        seq![(key, value)] + fields.drop_first()
    } else {
        seq![fields[0]] + obj_set(fields.drop_first(), key, value)
    }
}

pub proof fn lemma_obj_set_get_same(fields: Seq<(Seq<char>, Json)>, key: Seq<char>, value: Json)
    ensures
        obj_lookup(obj_set(fields, key, value), key) == Some(value),
    decreases fields.len(),
{
    if fields.len() == 0 {
    } else if fields[0].0 == key {
    } else {
        lemma_obj_set_get_same(fields.drop_first(), key, value);
        assert((seq![fields[0]] + obj_set(fields.drop_first(), key, value)).drop_first()
            =~= obj_set(fields.drop_first(), key, value));
    }
}

pub proof fn lemma_obj_set_get_other(
    fields: Seq<(Seq<char>, Json)>,
    key: Seq<char>,
    value: Json,
    other: Seq<char>,
)
    requires
        other != key,
    ensures
        obj_lookup(obj_set(fields, key, value), other) == obj_lookup(fields, other),
    decreases fields.len(),
{
    reveal_with_fuel(obj_lookup, 3);
    if fields.len() == 0 {
        assert(seq![(key, value)].drop_first() =~= Seq::<(Seq<char>, Json)>::empty());
    } else if fields[0].0 == key {
        assert((seq![(key, value)] + fields.drop_first()).drop_first() =~= fields.drop_first());
    } else {
        lemma_obj_set_get_other(fields.drop_first(), key, value, other);
        assert((seq![fields[0]] + obj_set(fields.drop_first(), key, value)).drop_first()
            =~= obj_set(fields.drop_first(), key, value));
    }
}

pub proof fn lemma_obj_set_nonempty(fields: Seq<(Seq<char>, Json)>, key: Seq<char>, value: Json)
    ensures
        obj_set(fields, key, value).len() >= 1,
{
}

/// The array position a path token names: all digits, nothing else.
pub open spec fn arr_index_of(token: Seq<char>) -> Option<int> {
    if token.len() > 0 && all_digits(token) {
        Some(digits_val(token))
    } else {
        None
    }
}

/// A decimal rendering is digits, and reads back to the number itself.
pub proof fn lemma_dec_str_value(n: int)
    requires
        n >= 0,
    ensures
        dec_str(n).len() > 0,
        all_digits(dec_str(n)),
        digits_val(dec_str(n)) == n,
    decreases n,
{
    if n < 10 {
        let s = dec_str(n);
        assert(is_digit(digit_char(n)));
        assert(digit_val(digit_char(n)) == n);
        assert(s =~= seq![digit_char(n)]);
        assert(s.drop_last() =~= Seq::<char>::empty());
        assert(digits_val(s.drop_last()) == 0);
        assert(s.last() == digit_char(n));
        assert(digits_val(s) == digits_val(s.drop_last()) * 10 + digit_val(s.last()));
    } else {
        lemma_dec_str_value(n / 10);
        let prefix = dec_str(n / 10);
        let whole = prefix.push(digit_char(n % 10));
        assert(whole.drop_last() =~= prefix);
        assert(is_digit(digit_char(n % 10)));
        assert(digit_val(digit_char(n % 10)) == n % 10);
        assert(forall|i: int| 0 <= i < whole.len() - 1 ==> whole[i] == prefix[i]);
    }
}

/// The result of one `add`: the value placed at the location the path
/// names, when every step resolves; object steps follow members, array
/// steps follow positions, and the final token binds an object member.
pub open spec fn apply_add(doc: Json, path: Seq<Seq<char>>, value: Json) -> Option<Json>
    decreases path.len(),
{
    if path.len() == 0 {
        Some(value)
    } else if path.len() == 1 {
        match doc {
            Json::Obj(f) => Some(Json::Obj(obj_set(f, path[0], value))),
            _ => None,
        }
    } else {
        match doc {
            Json::Obj(f) => match obj_lookup(f, path[0]) {
                Some(child) => match apply_add(child, path.drop_first(), value) {
                    Some(c2) => Some(Json::Obj(obj_set(f, path[0], c2))),
                    None => None,
                },
                None => None,
            },
            Json::Arr(a) => match arr_index_of(path[0]) {
                Some(i) => if 0 <= i < a.len() {
                    match apply_add(a[i], path.drop_first(), value) {
                        Some(c2) => Some(Json::Arr(a.update(i, c2))),
                        None => None,
                    }
                } else {
                    None
                },
                None => None,
            },
            _ => None,
        }
    }
}

/// The result of a patch sequence, applied left to right.
pub open spec fn apply_patches(doc: Json, ps: Seq<PatchView>) -> Option<Json>
    decreases ps.len(),
{
    if ps.len() == 0 {
        Some(doc)
    } else {
        match apply_add(doc, ps[0].path, ps[0].value) {
            Some(d2) => apply_patches(d2, ps.drop_first()),
            None => None,
        }
    }
}

/// The value a chain of object members leads to, if every step resolves.
pub open spec fn get_path(doc: Json, path: Seq<Seq<char>>) -> Option<Json>
    decreases path.len(),
{
    if path.len() == 0 {
        Some(doc)
    } else {
        match jv_get(doc, path[0]) {
            Some(c) => get_path(c, path.drop_first()),
            None => None,
        }
    }
}

/// Applying below a resolvable member chain applies the path's tail to
/// the value the chain leads to, and the new document's chain leads to
/// the result.
pub proof fn lemma_apply_through(
    doc: Json,
    prefix: Seq<Seq<char>>,
    rest: Seq<Seq<char>>,
    value: Json,
    mid: Json,
)
    requires
        get_path(doc, prefix) == Some(mid),
        rest.len() >= 1,
        apply_add(doc, prefix + rest, value) is Some,
    ensures
        apply_add(mid, rest, value) is Some,
        get_path(apply_add(doc, prefix + rest, value)->Some_0, prefix) == Some(
            apply_add(mid, rest, value)->Some_0,
        ),
    decreases prefix.len(),
{
    if prefix.len() == 0 {
        assert(prefix + rest =~= rest);
    } else {
        let path = prefix + rest;
        assert(path[0] == prefix[0]);
        assert(path.len() >= 2);
        match doc {
            Json::Obj(f) => {
                let c = obj_lookup(f, prefix[0])->Some_0;
                assert(jv_get(doc, prefix[0]) == Some(c));
                assert(path.drop_first() =~= prefix.drop_first() + rest);
                assert(apply_add(c, prefix.drop_first() + rest, value) is Some);
                let c2 = apply_add(c, prefix.drop_first() + rest, value)->Some_0;
                lemma_apply_through(c, prefix.drop_first(), rest, value, mid);
                let doc2 = apply_add(doc, path, value)->Some_0;
                assert(doc2 == Json::Obj(obj_set(f, prefix[0], c2)));
                lemma_obj_set_get_same(f, prefix[0], c2);
                assert(jv_get(doc2, prefix[0]) == Some(c2));
            },
            _ => {
                assert(jv_get(doc, prefix[0]) is None);
            },
        }
    }
}

/// Splitting a patch sequence splits its application.
pub proof fn lemma_apply_patches_concat(doc: Json, a: Seq<PatchView>, b: Seq<PatchView>)
    ensures
        apply_patches(doc, a + b) == (match apply_patches(doc, a) {
            Some(mid) => apply_patches(mid, b),
            None => None,
        }),
    decreases a.len(),
{
    if a.len() == 0 {
        assert(a + b =~= b);
    } else {
        assert((a + b)[0] == a[0]);
        match apply_add(doc, a[0].path, a[0].value) {
            Some(d2) => {
                assert((a + b).drop_first() =~= a.drop_first() + b);
                lemma_apply_patches_concat(d2, a.drop_first(), b);
            },
            None => {},
        }
    }
}

} // verus!
