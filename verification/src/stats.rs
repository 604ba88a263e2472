//! Statistics of a connection, sent to whoever listens.
use crate::json;
use crate::json::{
    array_value, bool_value, object_value, print_value, set_member, signed_value, text_value,
    unsigned_value,
};
use vstd::prelude::*;

verus! {

/// Milliseconds between two reports.
pub const REPORT_PERIOD: u64 = 100;

/// How many reports wait for one listener at most.
pub const WAITING_REPORTS: usize = 1000;

/// A value among the statistics.
#[derive(Debug)]
pub enum StatValue {
    Text(String),
    Bool(bool),
    I32(i32),
    U32(u32),
    I64(i64),
    U64(u64),
    /// A floating point number as JSON; `null` where it is not finite.
    Float(serde_json::Value),
    /// Fields; of those with one name the last counts.
    Structure(Vec<(String, StatValue)>),
    Array(Vec<StatValue>),
    /// The short names of the flags that are set.
    Flags(Vec<String>),
    /// A value of another type, written out.
    Written(String),
    /// A value of another type that cannot be written out.
    Other,
}

/// What a round of reports starts with.
#[derive(Clone, Copy, Debug, PartialEq, Eq, Structural)]
pub enum ReportStep {
    Collect,
    Stop,
}

/// Who listens to the statistics.
#[derive(Debug)]
pub struct Stats {
    listeners: Vec<u128>,
}

/// Texts with a plus sign between each two.
pub open spec fn joined(parts: Seq<String>) -> Seq<char>
    decreases parts.len(),
{
    if parts.len() == 0 {
        Seq::empty()
    } else if parts.len() == 1 {
        parts[0]@
    } else {
        joined(parts.drop_last()) + "+"@ + parts.last()@
    }
}

/// A value of the statistics as JSON, where it has such a form.
pub open spec fn stat_tree(value: StatValue) -> Option<json::JsonTree>
    decreases value,
{
    match value {
        StatValue::Text(s) => Some(json::JsonTree::Text(s@)),
        StatValue::Bool(b) => Some(json::JsonTree::Bool(b)),
        StatValue::I32(n) => Some(whole(n as int)),
        StatValue::U32(n) => Some(whole(n as int)),
        StatValue::I64(n) => Some(whole(n as int)),
        StatValue::U64(n) => Some(whole(n as int)),
        StatValue::Float(x) => Some(json::json_content(x)),
        StatValue::Structure(fields) => Some(json::JsonTree::Object(field_trees(fields@))),
        StatValue::Array(items) => Some(json::JsonTree::Array(stat_trees(items@))),
        StatValue::Flags(names) => Some(json::JsonTree::Text(joined(names@))),
        StatValue::Written(s) => Some(json::JsonTree::Text(s@)),
        StatValue::Other => None,
    }
}

/// An integer as JSON.
pub open spec fn whole(n: int) -> json::JsonTree {
    json::JsonTree::Number(json::whole_number(n, json::rounded(n)))
}

/// Those of some values that have a form in JSON, in order.
pub open spec fn stat_trees(values: Seq<StatValue>) -> Seq<json::JsonTree>
    decreases values,
{
    if values.len() == 0 {
        Seq::empty()
    } else {
        match stat_tree(values.last()) {
            Some(tree) => stat_trees(values.drop_last()).push(tree),
            None => stat_trees(values.drop_last()),
        }
    }
}

/// Those of some fields that have a form in JSON.
pub open spec fn field_trees(fields: Seq<(String, StatValue)>) -> Map<Seq<char>, json::JsonTree>
    decreases fields,
{
    if fields.len() == 0 {
        Map::empty()
    } else {
        match stat_tree(fields.last().1) {
            Some(tree) => field_trees(fields.drop_last()).insert(fields.last().0@, tree),
            None => field_trees(fields.drop_last()),
        }
    }
}

/// Texts with a plus sign between each two.
fn join(parts: &Vec<String>) -> (r: String)
    ensures
        r@ == joined(parts@),
{
    let mut out = String::new();
    let mut i: usize = 0;
    while i < parts.len()
        invariant
            i <= parts.len(),
            out@ == joined(parts@.take(i as int)),
        decreases parts.len() - i,
    {
        if i > 0 {
            out.append("+");
        }
        out.append(parts[i].as_str());
        i = i + 1;
        assert(parts@.take(i as int).drop_last() =~= parts@.take(i as int - 1));
        assert(out@ =~= joined(parts@.take(i as int)));
    }
    assert(parts@.take(i as int) =~= parts@);
    out
}

/// An identifier is of the random kind: its version is 4 and its variant that of RFC 9562.
pub open spec fn is_random_id(id: u128) -> bool {
    &&& (id / 0x1000_0000_0000_0000_0000) % 16 == 4
    &&& (id / 0x4000_0000_0000_0000) % 4 == 2
}

/// `uuid::Uuid::new_v4` and `uuid::Uuid::as_u128`: a random identifier.
///
/// Two calls give different identifiers but for an accident, which is not ruled out here.
#[verifier::external_body]
fn new_id() -> (r: u128)
    ensures
        is_random_id(r),
{
    uuid::Uuid::new_v4().as_u128()
}

/// The listeners that are left after some of them have failed, one after the other.
pub open spec fn after_failures(listeners: Seq<u128>, failed: Seq<u128>) -> Seq<u128>
    decreases failed.len(),
{
    if failed.len() == 0 {
        listeners
    } else {
        let left = after_failures(listeners, failed.drop_last());
        left.remove(left.index_of_first(failed.last())->0)
    }
}

impl Stats {
    /// The identifiers of the listeners, in the order in which they came.
    pub closed spec fn listeners(self) -> Seq<u128> {
        self.listeners@
    }

    /// No listeners.
    pub fn new() -> (r: Stats)
        ensures
            r.listeners() == Seq::<u128>::empty(),
    {
        Stats { listeners: Vec::new() }
    }

    /// Where the server listens.
    pub fn address() -> (r: &'static str)
        ensures
            r@ == "127.0.0.1:8484"@,
    {
        "127.0.0.1:8484"
    }

    /// What a round starts with: statistics are collected while the connection is there.
    pub fn on_tick(connection: bool) -> (r: ReportStep)
        ensures
            r == if connection {
                ReportStep::Collect
            } else {
                ReportStep::Stop
            },
    {
        if connection {
            ReportStep::Collect
        } else {
            ReportStep::Stop
        }
    }

    /// A value of the statistics as JSON, where it has such a form.
    pub fn serialize_value(value: StatValue) -> (r: Option<serde_json::Value>)
        ensures
            match r {
                Some(document) => stat_tree(value) == Some(json::json_content(document)),
                None => stat_tree(value) is None,
            },
        decreases value,
    {
        match value {
            StatValue::Text(s) => Some(text_value(s)),
            StatValue::Bool(b) => Some(bool_value(b)),
            StatValue::I32(n) => Some(signed_value(n as i64)),
            StatValue::U32(n) => Some(unsigned_value(n as u64)),
            StatValue::I64(n) => Some(signed_value(n)),
            StatValue::U64(n) => Some(unsigned_value(n)),
            StatValue::Float(x) => Some(x),
            StatValue::Structure(fields) => {
                let ghost all = fields@;
                let mut members: Vec<(String, serde_json::Value)> = Vec::new();
                for field in it: fields
                    invariant
                        it.seq() == all,
                        value == StatValue::Structure(fields),
                        fields@ == all,
                        json::distinct_members(members@),
                        json::member_contents(members@) == field_trees(all.take(it.index())),
                {
                    let ghost n = it.index();
                    assert(all.take(n + 1).drop_last() =~= all.take(n));
                    assert(decreases_to!(value => value->Structure_0));
                    assert(decreases_to!(fields => fields@));
                    assert(decreases_to!(fields@ => fields@[n]));
                    assert(decreases_to!(fields@[n] => fields@[n].1));
                    match Stats::serialize_value(field.1) {
                        Some(document) => set_member(&mut members, field.0, document),
                        None => {},
                    }
                }
                assert(all.take(all.len() as int) =~= all);
                object_value(members)
            },
            StatValue::Array(items) => {
                let ghost all = items@;
                let mut documents: Vec<serde_json::Value> = Vec::new();
                for item in it: items
                    invariant
                        it.seq() == all,
                        value == StatValue::Array(items),
                        items@ == all,
                        json::item_contents(documents@) == stat_trees(all.take(it.index())),
                {
                    let ghost n = it.index();
                    let ghost before = documents@;
                    assert(all.take(n + 1).drop_last() =~= all.take(n));
                    assert(decreases_to!(value => value->Array_0));
                    assert(decreases_to!(items => items@));
                    assert(decreases_to!(items@ => items@[n]));
                    match Stats::serialize_value(item) {
                        Some(document) => {
                            documents.push(document);
                            assert(json::item_contents(documents@) =~= json::item_contents(
                                before,
                            ).push(json::json_content(document)));
                        },
                        None => {},
                    }
                }
                assert(all.take(all.len() as int) =~= all);
                array_value(documents)
            },
            StatValue::Flags(names) => Some(text_value(join(&names))),
            StatValue::Written(s) => Some(text_value(s)),
            StatValue::Other => None,
        }
    }

    /// The report on some statistics; none where they have no form in JSON.
    pub fn report(value: StatValue) -> (r: Option<String>)
        ensures
            match r {
                Some(text) => stat_tree(value) matches Some(tree) && text@ == json::json_printed(
                    tree,
                ),
                None => stat_tree(value) is None,
            },
    {
        match Stats::serialize_value(value) {
            Some(document) => print_value(&document),
            None => None,
        }
    }

    /// Adds a listener.
    pub fn add_listener(&mut self, id: u128)
        ensures
            final(self).listeners() == old(self).listeners().push(id),
    {
        self.listeners.push(id);
    }

    /// Adds a listener under a new identifier.
    pub fn accept_connection(&mut self) -> (r: u128)
        ensures
            is_random_id(r),
            final(self).listeners() == old(self).listeners().push(r),
    {
        let id: u128 = new_id();
        self.add_listener(id);
        id
    }

    /// The listeners that get the next report.
    pub fn recipients(&self) -> (r: Vec<u128>)
        ensures
            r@ == self.listeners(),
    {
        let mut ids: Vec<u128> = Vec::new();
        let mut i: usize = 0;
        while i < self.listeners.len()
            invariant
                i <= self.listeners.len(),
                ids@ == self.listeners@.take(i as int),
            decreases self.listeners.len() - i,
        {
            ids.push(self.listeners[i]);
            i = i + 1;
            assert(ids@ =~= self.listeners@.take(i as int));
        }
        assert(self.listeners@.take(i as int) =~= self.listeners@);
        ids
    }

    /// A report did not reach a listener, who is taken off the list.
    pub fn send_failed(&mut self, id: u128)
        requires
            old(self).listeners().contains(id),
        ensures
            old(self).listeners().index_of_first(id) matches Some(i) && final(self).listeners()
                == old(self).listeners().remove(i),
    {
        let mut i: usize = 0;
        let ghost all = self.listeners@;
        while i < self.listeners.len()
            invariant
                i <= self.listeners.len(),
                self.listeners@ == all,
                forall|j: int| 0 <= j < i ==> all[j] != id,
            ensures
                i < self.listeners.len() ==> all[i as int] == id,
            decreases self.listeners.len() - i,
        {
            if self.listeners[i] == id {
                break;
            }
            i = i + 1;
        }
        proof {
            all.index_of_first_ensures(id);
        }
        assert(i < all.len());
        self.listeners.remove(i);
    }
}

proof fn lemma_filter_twice(s: Seq<u128>, p: spec_fn(u128) -> bool, q: spec_fn(u128) -> bool)
    ensures
        s.filter(p).filter(q) == s.filter(|x: u128| p(x) && q(x)),
    decreases s.len(),
{
    reveal(Seq::filter);
    if s.len() > 0 {
        let front = s.drop_last();
        lemma_filter_twice(front, p, q);
        if p(s.last()) {
            assert(front.filter(p).push(s.last()).drop_last() =~= front.filter(p));
        }
    }
}

proof fn lemma_filter_distinct(s: Seq<u128>, p: spec_fn(u128) -> bool)
    requires
        s.no_duplicates(),
    ensures
        s.filter(p).no_duplicates(),
        forall|x: u128| #[trigger] s.filter(p).contains(x) <==> s.contains(x) && p(x),
    decreases s.len(),
{
    reveal(Seq::filter);
    if s.len() > 0 {
        let front = s.drop_last();
        let last = s.last();
        lemma_filter_distinct(front, p);
        assert(!front.contains(last)) by {
            assert(s[s.len() - 1] == last);
        }
        assert forall|x: u128| s.contains(x) <==> front.contains(x) || x == last by {
            if s.contains(x) && x != last {
                let i = choose|i: int| 0 <= i < s.len() && s[i] == x;
                assert(front[i] == x);
            }
            if front.contains(x) {
                let i = choose|i: int| 0 <= i < front.len() && front[i] == x;
                assert(s[i] == x);
            }
            assert(s[s.len() - 1] == last);
        }
        if p(last) {
            let kept = front.filter(p);
            let t = kept.push(last);
            assert forall|x: u128| t.contains(x) <==> kept.contains(x) || x == last by {
                if t.contains(x) && x != last {
                    let i = choose|i: int| 0 <= i < t.len() && t[i] == x;
                    assert(kept[i] == x);
                }
                if kept.contains(x) {
                    let i = choose|i: int| 0 <= i < kept.len() && kept[i] == x;
                    assert(t[i] == x);
                }
                assert(t[t.len() - 1] == last);
            }
            assert forall|i: int, j: int| 0 <= i < t.len() && 0 <= j < t.len() && i != j implies t[i]
                != t[j] by {
                if i < kept.len() {
                    assert(kept.contains(kept[i]));
                }
                if j < kept.len() {
                    assert(kept.contains(kept[j]));
                }
            }
        }
    }
}

proof fn lemma_filter_all(s: Seq<u128>, p: spec_fn(u128) -> bool)
    requires
        forall|i: int| 0 <= i < s.len() ==> p(#[trigger] s[i]),
    ensures
        s.filter(p) == s,
    decreases s.len(),
{
    reveal(Seq::filter);
    if s.len() > 0 {
        assert forall|i: int| 0 <= i < s.drop_last().len() implies p(
            #[trigger] s.drop_last()[i],
        ) by {
            assert(s.drop_last()[i] == s[i]);
        }
        lemma_filter_all(s.drop_last(), p);
        assert(p(s[s.len() - 1]));
        assert(s.drop_last().push(s.last()) =~= s);
    }
}

proof fn lemma_remove_distinct(s: Seq<u128>, i: int)
    requires
        s.no_duplicates(),
        0 <= i < s.len(),
    ensures
        s.remove(i) == s.filter(|x: u128| x != s[i]),
    decreases s.len(),
{
    reveal(Seq::filter);
    let front = s.drop_last();
    let p = |x: u128| x != s[i];
    if i == s.len() - 1 {
        lemma_filter_all(front, p);
        assert(s.remove(i) =~= front);
    } else {
        lemma_remove_distinct(front, i);
        assert(p =~= |x: u128| x != front[i]);
        assert(s.remove(i) =~= front.remove(i).push(s.last()));
    }
}

/// Who has failed is taken off the list; everybody else stays, in order.
pub proof fn lemma_failed_listeners_leave(listeners: Seq<u128>, failed: Seq<u128>)
    requires
        listeners.no_duplicates(),
        failed.no_duplicates(),
        forall|x: u128| #[trigger] failed.contains(x) ==> listeners.contains(x),
    ensures
        after_failures(listeners, failed) == listeners.filter(|x: u128| !failed.contains(x)),
    decreases failed.len(),
{
    if failed.len() == 0 {
        lemma_filter_all(listeners, |x: u128| !failed.contains(x));
    } else {
        let front = failed.drop_last();
        let last = failed.last();
        let p = |x: u128| !front.contains(x);
        let q = |x: u128| x != last;
        assert forall|x: u128| #[trigger] front.contains(x) implies listeners.contains(x) by {
            let i = choose|i: int| 0 <= i < front.len() && front[i] == x;
            assert(failed[i] == x);
            assert(failed.contains(x));
        }
        lemma_failed_listeners_leave(listeners, front);
        let left = after_failures(listeners, front);
        lemma_filter_distinct(listeners, p);
        assert(failed.contains(last)) by {
            assert(failed[failed.len() - 1] == last);
        }
        assert(!front.contains(last));
        assert(left.contains(last));
        left.index_of_first_ensures(last);
        let i = left.index_of_first(last)->0;
        lemma_remove_distinct(left, i);
        assert(q =~= |x: u128| x != left[i]);
        lemma_filter_twice(listeners, p, q);
        assert forall|x: u128| p(x) && q(x) <==> !failed.contains(x) by {
            if failed.contains(x) && x != last {
                let j = choose|j: int| 0 <= j < failed.len() && failed[j] == x;
                assert(front[j] == x);
            }
            if front.contains(x) {
                let j = choose|j: int| 0 <= j < front.len() && front[j] == x;
                assert(failed[j] == x);
            }
        }
        assert((|x: u128| p(x) && q(x)) =~= (|x: u128| !failed.contains(x)));
    }
}

/// A value has a form in JSON unless it is of a type that cannot be written out.
pub proof fn lemma_what_has_a_form(value: StatValue)
    ensures
        stat_tree(value) is None <==> value is Other,
{
}

/// Texts, and values that were written out, are JSON strings; booleans are booleans; integers
/// are kept as they are; floating point numbers are what they were made.
pub proof fn lemma_plain_forms(s: String, b: bool, i: i32, u: u32, n: i64, m: u64, x: serde_json::Value)
    ensures
        stat_tree(StatValue::Text(s)) == Some(json::JsonTree::Text(s@)),
        stat_tree(StatValue::Written(s)) == Some(json::JsonTree::Text(s@)),
        stat_tree(StatValue::Bool(b)) == Some(json::JsonTree::Bool(b)),
        stat_tree(StatValue::I32(i)) matches Some(json::JsonTree::Number(k)) && k.signed == Some(
            i as i64,
        ) && (i >= 0 ==> k.unsigned == Some(i as u64)) && (i < 0 ==> k.unsigned is None),
        stat_tree(StatValue::U32(u)) matches Some(json::JsonTree::Number(k)) && k.unsigned == Some(
            u as u64,
        ) && k.signed == Some(u as i64),
        stat_tree(StatValue::I64(n)) matches Some(json::JsonTree::Number(k)) && k.signed == Some(n)
            && (n >= 0 ==> k.unsigned == Some(n as u64)) && (n < 0 ==> k.unsigned is None),
        stat_tree(StatValue::U64(m)) matches Some(json::JsonTree::Number(k)) && k.unsigned == Some(
            m,
        ) && (m <= i64::MAX ==> k.signed == Some(m as i64)) && (m > i64::MAX ==> k.signed is None),
        stat_tree(StatValue::Float(x)) == Some(json::json_content(x)),
{
}

/// The fields of a structure are the members of an object: a name is a member if and only if
/// some field with that name has a form in JSON, and the member is the form of the last such
/// field.
pub proof fn lemma_structures_are_objects(fields: Vec<(String, StatValue)>, name: Seq<char>)
    ensures
        stat_tree(StatValue::Structure(fields)) matches Some(json::JsonTree::Object(members)) && (
        members.dom().contains(name) <==> exists|i: int|
            0 <= i < fields@.len() && (#[trigger] fields@[i]).0@ == name && !(
            fields@[i].1 is Other)) && (forall|i: int|
            0 <= i < fields@.len() && (#[trigger] fields@[i]).0@ == name && !(
            fields@[i].1 is Other) && (forall|j: int|
                i < j < fields@.len() && (#[trigger] fields@[j]).0@ == name ==> fields@[j].1
                    is Other) ==> Some(members[name]) == stat_tree(fields@[i].1)),
{
    lemma_fields(fields@, name);
}

proof fn lemma_fields(fields: Seq<(String, StatValue)>, name: Seq<char>)
    ensures
        field_trees(fields).dom().contains(name) <==> exists|i: int|
            0 <= i < fields.len() && (#[trigger] fields[i]).0@ == name && !(fields[i].1 is Other),
        forall|i: int|
            0 <= i < fields.len() && (#[trigger] fields[i]).0@ == name && !(fields[i].1 is Other)
                && (forall|j: int|
                i < j < fields.len() && (#[trigger] fields[j]).0@ == name ==> fields[j].1 is Other)
                ==> Some(field_trees(fields)[name]) == stat_tree(fields[i].1),
    decreases fields.len(),
{
    if fields.len() > 0 {
        let front = fields.drop_last();
        let n = fields.len() - 1;
        lemma_fields(front, name);
        lemma_what_has_a_form(fields[n].1);
        assert(forall|i: int| 0 <= i < n ==> front[i] == #[trigger] fields[i]);
        assert forall|i: int|
            0 <= i < fields.len() && (#[trigger] fields[i]).0@ == name && !(fields[i].1 is Other)
                && (forall|j: int|
                i < j < fields.len() && (#[trigger] fields[j]).0@ == name ==> fields[j].1
                    is Other) implies Some(field_trees(fields)[name]) == stat_tree(
            fields[i].1,
        ) by {
            if i < n {
                assert(front[i].0@ == name);
                assert(fields[n].0@ == name ==> fields[n].1 is Other);
                assert forall|j: int| i < j < front.len() && (
                #[trigger] front[j]).0@ == name implies front[j].1 is Other by {
                    assert(fields[j] == front[j]);
                }
            }
        }
        if exists|i: int|
            0 <= i < fields.len() && (#[trigger] fields[i]).0@ == name && !(
            fields[i].1 is Other) {
            let i = choose|i: int|
                0 <= i < fields.len() && (#[trigger] fields[i]).0@ == name && !(
                fields[i].1 is Other);
            if i < n {
                assert(front[i].0@ == name);
            }
        }
        if field_trees(front).dom().contains(name) {
            let i = choose|i: int|
                0 <= i < front.len() && (#[trigger] front[i]).0@ == name && !(
                front[i].1 is Other);
            assert(fields[i].0@ == name);
        }
    }
}

/// The items of an array that have a form in JSON are the items of a JSON array, in order.
pub proof fn lemma_arrays_are_arrays(items: Vec<StatValue>)
    ensures
        ({
            let kept = items@.filter(|v: StatValue| !(v is Other));
            stat_tree(StatValue::Array(items)) matches Some(json::JsonTree::Array(made))
                && made.len() == kept.len() && forall|i: int|
                0 <= i < made.len() ==> Some(#[trigger] made[i]) == stat_tree(kept[i])
        }),
{
    lemma_items(items@);
}

proof fn lemma_items(values: Seq<StatValue>)
    ensures
        ({
            let kept = values.filter(|v: StatValue| !(v is Other));
            let made = stat_trees(values);
            made.len() == kept.len() && forall|i: int|
                0 <= i < made.len() ==> Some(#[trigger] made[i]) == stat_tree(kept[i])
        }),
    decreases values.len(),
{
    reveal(Seq::filter);
    if values.len() > 0 {
        lemma_items(values.drop_last());
        lemma_what_has_a_form(values.last());
    }
}

/// Short names of flags are joined by plus signs: none before the first, one before each other.
pub proof fn lemma_flags_are_joined(names: Vec<String>)
    ensures
        stat_tree(StatValue::Flags(names)) == Some(json::JsonTree::Text(joined(names@))),
        names@.len() == 0 ==> joined(names@) == Seq::<char>::empty(),
        forall|parts: Seq<String>, part: String|
            parts.len() > 0 ==> #[trigger] joined(parts.push(part)) == joined(parts) + "+"@
                + part@,
        forall|part: String| #[trigger] joined(seq![part]) == part@,
{
    assert forall|parts: Seq<String>, part: String| parts.len() > 0 implies #[trigger] joined(
        parts.push(part),
    ) == joined(parts) + "+"@ + part@ by {
        assert(parts.push(part).drop_last() =~= parts);
    }
}

/// A random identifier has the version in its bits 76 to 79 and the variant in its bits 62
/// and 63.
pub proof fn lemma_random_id_bits(id: u128)
    requires
        is_random_id(id),
    ensures
        (id >> 76) & 0xF == 4,
        (id >> 62) & 0x3 == 2,
{
    assert((id / 0x1000_0000_0000_0000_0000) % 16 == (id >> 76) & 0xF) by (bit_vector);
    assert((id / 0x4000_0000_0000_0000) % 4 == (id >> 62) & 0x3) by (bit_vector);
}

/// Ten reports in a second, and a thousand that wait for a listener at most.
pub proof fn lemma_report_rates()
    ensures
        REPORT_PERIOD * 10 == 1000,
        WAITING_REPORTS == 1000,
{
}

} // verus!
