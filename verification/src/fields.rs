//! Name/value fields (query parameters, headers) and the map they make when
//! a later field overrides an earlier one of the same name.
use vstd::prelude::*;

verus! {

/// A field as a pair of character sequences: its name and its value.
pub type FieldView = (Seq<char>, Seq<char>);

/// The characters of each name and value in `fields`.
pub open spec fn fields_view(fields: Seq<(String, String)>) -> Seq<FieldView> {
    fields.map_values(|f: (String, String)| (f.0@, f.1@))
}

/// The map that `fields` make when they are inserted in order, so that the
/// last field of a name gives that name its value.
pub open spec fn fields_map(fields: Seq<FieldView>) -> Map<Seq<char>, Seq<char>>
    decreases fields.len(),
{
    if fields.len() == 0 {
        Map::empty()
    } else {
        fields_map(fields.drop_last()).insert(fields.last().0, fields.last().1)
    }
}

/// Inserting one more field gives its name its value and leaves every other
/// name as it was; no fields make the empty map.
pub proof fn lemma_fields_map_push(fields: Seq<FieldView>, field: FieldView)
    ensures
        fields_map(fields.push(field)).dom().contains(field.0),
        fields_map(fields.push(field))[field.0] == field.1,
        forall|name: Seq<char>|
            name != field.0 ==> (fields_map(fields.push(field)).dom().contains(name)
                == fields_map(fields).dom().contains(name) && fields_map(fields.push(field))[name]
                == fields_map(fields)[name]),
        fields_map(Seq::<FieldView>::empty()) == Map::<Seq<char>, Seq<char>>::empty(),
{
    assert(fields.push(field).drop_last() =~= fields);
}

/// Whether no two of `fields` share a name.
pub open spec fn names_distinct(fields: Seq<FieldView>) -> bool {
    forall|i: int, j: int|
        0 <= i < j < fields.len() ==> (#[trigger] fields[i]).0 != (#[trigger] fields[j]).0
}

/// Whether one of `fields` has the name `name`.
pub open spec fn has_name(fields: Seq<FieldView>, name: Seq<char>) -> bool {
    exists|i: int| 0 <= i < fields.len() && (#[trigger] fields[i]).0 == name
}

/// Whether the names of `fields` come in the order in which each name first
/// appears in `source`: a name listed earlier appears in `source` before any
/// field of a name listed later.
pub open spec fn in_first_appearance_order(fields: Seq<FieldView>, source: Seq<FieldView>) -> bool {
    forall|a: int, b: int, k: int|
        #![trigger fields[a], fields[b], source[k]]
        0 <= a < b < fields.len() && 0 <= k < source.len() && source[k].0 == fields[b].0
            ==> named_before(source, fields[a].0, k)
}

/// Whether a field before index `k` of `source` has the name `name`.
pub open spec fn named_before(source: Seq<FieldView>, name: Seq<char>, k: int) -> bool {
    exists|k2: int| 0 <= k2 < k && (#[trigger] source[k2]).0 == name
}

/// With distinct names, the map holds exactly the names of the fields, each
/// with the value of its field.
pub proof fn lemma_map_of_distinct(fields: Seq<FieldView>)
    requires
        names_distinct(fields),
    ensures
        forall|name: Seq<char>| #[trigger]
            fields_map(fields).dom().contains(name) <==> has_name(fields, name),
        forall|i: int|
            0 <= i < fields.len() ==> fields_map(fields)[(#[trigger] fields[i]).0] == fields[i].1,
    decreases fields.len(),
{
    if fields.len() > 0 {
        let init = fields.drop_last();
        assert(names_distinct(init)) by {
            assert forall|i: int, j: int| 0 <= i < j < init.len() implies (#[trigger] init[i]).0
                != (#[trigger] init[j]).0 by {
                assert(init[i] == fields[i] && init[j] == fields[j]);
            }
        }
        lemma_map_of_distinct(init);
        let last = fields.last();
        assert forall|name: Seq<char>| #[trigger]
            fields_map(fields).dom().contains(name) <==> has_name(fields, name) by {
            if has_name(fields, name) {
                let i = choose|i: int| 0 <= i < fields.len() && (#[trigger] fields[i]).0 == name;
                if i < fields.len() - 1 {
                    assert(init[i] == fields[i]);
                }
            }
            if fields_map(init).dom().contains(name) {
                let i = choose|i: int| 0 <= i < init.len() && (#[trigger] init[i]).0 == name;
                assert(fields[i] == init[i]);
            }
            if name == last.0 {
                assert(fields[fields.len() - 1] == last);
            }
        }
        assert forall|i: int| 0 <= i < fields.len() implies fields_map(fields)[(
        #[trigger] fields[i]).0] == fields[i].1 by {
            if i < fields.len() - 1 {
                assert(init[i] == fields[i]);
                assert(fields[i].0 != fields[fields.len() - 1].0);
            }
        }
    }
}

/// Giving one field of a distinct-named list a new value keeps the names
/// distinct and sets that name's value in the map.
pub proof fn lemma_replace_value(fields: Seq<FieldView>, j: int, value: Seq<char>)
    requires
        names_distinct(fields),
        0 <= j < fields.len(),
    ensures
        names_distinct(fields.update(j, (fields[j].0, value))),
        fields_map(fields.update(j, (fields[j].0, value))) == fields_map(fields).insert(
            fields[j].0,
            value,
        ),
{
    let name = fields[j].0;
    let updated = fields.update(j, (name, value));
    assert(names_distinct(updated)) by {
        assert forall|a: int, b: int| 0 <= a < b < updated.len() implies (
        #[trigger] updated[a]).0 != (#[trigger] updated[b]).0 by {
            assert(fields[a].0 != fields[b].0);
        }
    }
    lemma_map_of_distinct(fields);
    lemma_map_of_distinct(updated);
    let lhs = fields_map(updated);
    let rhs = fields_map(fields).insert(name, value);
    assert forall|k: Seq<char>| lhs.dom().contains(k) <==> rhs.dom().contains(k) by {
        if has_name(updated, k) {
            let i = choose|i: int| 0 <= i < updated.len() && (#[trigger] updated[i]).0 == k;
            if i != j {
                assert(fields[i] == updated[i]);
            }
        }
        if has_name(fields, k) {
            let i = choose|i: int| 0 <= i < fields.len() && (#[trigger] fields[i]).0 == k;
            assert(updated[i].0 == fields[i].0);
        }
        if k == name {
            assert(updated[j].0 == name);
        }
    }
    assert forall|k: Seq<char>| #[trigger] lhs.dom().contains(k) implies lhs[k] == rhs[k] by {
        let i = choose|i: int| 0 <= i < updated.len() && (#[trigger] updated[i]).0 == k;
        if i != j {
            assert(fields[i] == updated[i]);
            assert(fields[i].0 != fields[j].0);
        }
    }
    assert(lhs =~= rhs);
}

/// Giving a listed name a new value, as the next field of the source names
/// it, keeps the listing's names and their order of first appearance.
proof fn lemma_names_kept(
    listed: Seq<FieldView>,
    j: int,
    value: Seq<char>,
    source: Seq<FieldView>,
    field: FieldView,
)
    requires
        0 <= j < listed.len(),
        field.0 == listed[j].0,
        forall|name: Seq<char>| has_name(listed, name) <==> has_name(source, name),
        in_first_appearance_order(listed, source),
    ensures
        forall|name: Seq<char>|
            has_name(listed.update(j, (listed[j].0, value)), name) <==> has_name(
                source.push(field),
                name,
            ),
        in_first_appearance_order(listed.update(j, (listed[j].0, value)), source.push(field)),
{
    let updated = listed.update(j, (listed[j].0, value));
    let next = source.push(field);
    assert forall|name: Seq<char>| has_name(updated, name) <==> has_name(next, name) by {
        if has_name(updated, name) {
            let b = choose|b: int| 0 <= b < updated.len() && (#[trigger] updated[b]).0 == name;
            assert(listed[b].0 == name);
            assert(has_name(listed, name));
            let k = choose|k: int| 0 <= k < source.len() && (#[trigger] source[k]).0 == name;
            assert(next[k] == source[k]);
        }
        if has_name(next, name) {
            let k = choose|k: int| 0 <= k < next.len() && (#[trigger] next[k]).0 == name;
            if k < source.len() {
                assert(source[k] == next[k]);
                assert(has_name(source, name));
                let b = choose|b: int| 0 <= b < listed.len() && (#[trigger] listed[b]).0 == name;
                assert(updated[b].0 == name);
            } else {
                assert(updated[j].0 == name);
            }
        }
    }
    assert forall|a: int, b: int, k: int|
        #![trigger updated[a], updated[b], next[k]]
        0 <= a < b < updated.len() && 0 <= k < next.len() && next[k].0 == updated[b].0 implies named_before(next, updated[a].0, k) by {
        assert(updated[a].0 == listed[a].0 && updated[b].0 == listed[b].0);
        let k0 = if k < source.len() {
            assert(source[k] == next[k]);
            k
        } else {
            assert(has_name(listed, listed[b].0));
            choose|k0: int| 0 <= k0 < source.len() && (#[trigger] source[k0]).0 == listed[b].0
        };
        assert(source[k0].0 == listed[b].0);
        assert(named_before(source, listed[a].0, k0));
        let k2 = choose|k2: int| 0 <= k2 < k0 && (#[trigger] source[k2]).0 == listed[a].0;
        assert(next[k2] == source[k2]);
    }
}

/// Listing a name that was not listed yet, as the next field of the source
/// names it, keeps every name listed and their order of first appearance.
proof fn lemma_name_added(listed: Seq<FieldView>, source: Seq<FieldView>, field: FieldView)
    requires
        !has_name(listed, field.0),
        forall|name: Seq<char>| has_name(listed, name) <==> has_name(source, name),
        in_first_appearance_order(listed, source),
    ensures
        forall|name: Seq<char>|
            has_name(listed.push(field), name) <==> has_name(source.push(field), name),
        in_first_appearance_order(listed.push(field), source.push(field)),
{
    let grown = listed.push(field);
    let next = source.push(field);
    assert forall|name: Seq<char>| has_name(grown, name) <==> has_name(next, name) by {
        if has_name(grown, name) {
            let b = choose|b: int| 0 <= b < grown.len() && (#[trigger] grown[b]).0 == name;
            if b < listed.len() {
                assert(listed[b] == grown[b]);
                assert(has_name(listed, name));
                let k = choose|k: int| 0 <= k < source.len() && (#[trigger] source[k]).0 == name;
                assert(next[k] == source[k]);
            } else {
                assert(next[source.len() as int] == field);
            }
        }
        if has_name(next, name) {
            let k = choose|k: int| 0 <= k < next.len() && (#[trigger] next[k]).0 == name;
            if k < source.len() {
                assert(source[k] == next[k]);
                assert(has_name(source, name));
                let b = choose|b: int| 0 <= b < listed.len() && (#[trigger] listed[b]).0 == name;
                assert(grown[b] == listed[b]);
            } else {
                assert(grown[listed.len() as int] == field);
            }
        }
    }
    assert forall|a: int, b: int, k: int|
        #![trigger grown[a], grown[b], next[k]]
        0 <= a < b < grown.len() && 0 <= k < next.len() && next[k].0 == grown[b].0 implies named_before(next, grown[a].0, k) by {
        assert(grown[a] == listed[a]);
        if b < listed.len() {
            assert(grown[b] == listed[b]);
            if k == source.len() {
                assert(next[k] == field);
                assert(has_name(listed, field.0));
            }
            assert(source[k] == next[k]);
            let k2 = choose|k2: int| 0 <= k2 < k && (#[trigger] source[k2]).0 == listed[a].0;
            assert(next[k2] == source[k2]);
        } else {
            assert(grown[b] == field);
            if k < source.len() {
                assert(source[k] == next[k]);
                assert(has_name(source, field.0));
            }
            assert(has_name(listed, listed[a].0));
            let k2 = choose|k2: int| 0 <= k2 < source.len() && (#[trigger] source[k2]).0 == listed[a].0;
            assert(next[k2] == source[k2]);
        }
    }
}

/// The index of the field named `name` in `fields`, if there is one.
fn position_of(fields: &Vec<(String, String)>, name: &String) -> (r: Option<usize>)
    ensures
        match r {
            Some(j) => j < fields@.len() && fields_view(fields@)[j as int].0 == name@,
            None => !has_name(fields_view(fields@), name@),
        },
{
    let mut j: usize = 0;
    while j < fields.len()
        invariant
            j <= fields@.len(),
            forall|k: int| 0 <= k < j ==> (#[trigger] fields_view(fields@)[k]).0 != name@,
        decreases fields.len() - j,
    {
        if fields[j].0 == *name {
            return Some(j);
        }
        j += 1;
    }
    None
}

/// One field for each name in `fields`, in the order in which the names
/// first appear, holding the value of the last field of that name: the map
/// that inserting `fields` in order makes. Where the names are distinct
/// already, the fields come back as they were.
pub fn latest_fields(fields: &Vec<(String, String)>) -> (res: Vec<(String, String)>)
    ensures
        names_distinct(fields_view(res@)),
        fields_map(fields_view(res@)) == fields_map(fields_view(fields@)),
        forall|name: Seq<char>|
            has_name(fields_view(res@), name) <==> has_name(fields_view(fields@), name),
        in_first_appearance_order(fields_view(res@), fields_view(fields@)),
        names_distinct(fields_view(fields@)) ==> fields_view(res@) == fields_view(fields@),
{
    let ghost input = fields_view(fields@);
    let mut res: Vec<(String, String)> = Vec::new();
    let n = fields.len();
    for i in 0..n
        invariant
            n == fields@.len(),
            input == fields_view(fields@),
            names_distinct(fields_view(res@)),
            fields_map(fields_view(res@)) == fields_map(input.take(i as int)),
            names_distinct(input) ==> fields_view(res@) == input.take(i as int),
            forall|name: Seq<char>|
                has_name(fields_view(res@), name) <==> has_name(input.take(i as int), name),
            in_first_appearance_order(fields_view(res@), input.take(i as int)),
    {
        let name = fields[i].0.clone();
        let value = fields[i].1.clone();
        let ghost before = fields_view(res@);
        let ghost prefix = input.take(i as int);
        let ghost next = input.take(i + 1);
        assert(next.drop_last() =~= prefix);
        assert(next =~= prefix.push(input[i as int]));
        assert(input.take(i + 1).drop_last() =~= input.take(i as int));
        assert(input[i as int] == (name@, value@));
        match position_of(&res, &name) {
            Some(j) => {
                proof {
                    lemma_replace_value(before, j as int, value@);
                    if names_distinct(input) {
                        assert(before[j as int] == input[j as int]);
                        assert(input[j as int].0 != input[i as int].0);
                    }
                }
                res.set(j, (name, value));
                assert(fields_view(res@) =~= before.update(j as int, (before[j as int].0, value@)));
                proof {
                    lemma_names_kept(before, j as int, value@, prefix, input[i as int]);
                }
            },
            None => {
                res.push((name, value));
                assert(fields_view(res@) =~= before.push((name@, value@)));
                assert(fields_view(res@).drop_last() =~= before);
                assert(names_distinct(fields_view(res@))) by {
                    let after = fields_view(res@);
                    assert forall|a: int, b: int| 0 <= a < b < after.len() implies (
                    #[trigger] after[a]).0 != (#[trigger] after[b]).0 by {
                        if b == after.len() - 1 {
                            assert(after[a] == before[a]);
                        } else {
                            assert(after[a] == before[a] && after[b] == before[b]);
                        }
                    }
                }
                assert(names_distinct(input) ==> fields_view(res@) =~= input.take(i + 1));
                proof {
                    lemma_name_added(before, prefix, input[i as int]);
                }
            },
        }
    }
    assert(input.take(n as int) =~= input);
    res
}

} // verus!
