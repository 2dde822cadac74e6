//! A JSON value held as plain data.

use crate::text::{comes_before, same_text, text_before};
use vstd::prelude::*;

verus! {

/// A JSON number: an unsigned integer, a negative integer, or the bits of a
/// finite binary64 value with negative zero written as zero.
#[derive(Eq, PartialEq, Debug, Clone, Copy, Structural)]
pub enum JsonNumber {
    PosInt(u64),
    NegInt(i64),
    Float(u64),
}

/// A JSON value. An object holds its members in ascending order of their
/// keys.
#[derive(Eq, PartialEq, Debug)]
pub enum Json {
    Null,
    Bool(bool),
    Number(JsonNumber),
    String(String),
    Array(Vec<Json>),
    Object(Vec<(String, Json)>),
}

/// What a JSON value holds.
pub enum JsonView {
    Null,
    Bool(bool),
    Number(JsonNumber),
    String(Seq<char>),
    Array(Seq<JsonView>),
    Object(Seq<(Seq<char>, JsonView)>),
}

impl View for Json {
    type V = JsonView;

    open spec fn view(&self) -> JsonView {
        self.content()
    }
}

impl Json {
    /// What the value holds.
    pub open spec fn content(&self) -> JsonView
        decreases self,
    {
        match self {
            Json::Null => JsonView::Null,
            Json::Bool(value) => JsonView::Bool(*value),
            Json::Number(value) => JsonView::Number(*value),
            Json::String(value) => JsonView::String(value@),
            Json::Array(items) => JsonView::Array(
                Seq::new(
                    items@.len(),
                    |i: int|
                        if 0 <= i < items@.len() {
                            items@[i].content()
                        } else {
                            JsonView::Null
                        },
                ),
            ),
            Json::Object(members) => JsonView::Object(
                Seq::new(
                    members@.len(),
                    |i: int|
                        if 0 <= i < members@.len() {
                            (members@[i].0@, members@[i].1.content())
                        } else {
                            (Seq::empty(), JsonView::Null)
                        },
                ),
            ),
        }
    }

    /// What an array of `items` holds.
    pub open spec fn array_view(items: Seq<Json>) -> Seq<JsonView> {
        Seq::new(items.len(), |i: int| if 0 <= i < items.len() { items[i]@ } else { JsonView::Null })
    }

    /// What an object of `members` holds.
    pub open spec fn object_view(members: Seq<(String, Json)>) -> Seq<(Seq<char>, JsonView)> {
        Seq::new(
            members.len(),
            |i: int|
                if 0 <= i < members.len() {
                    (members[i].0@, members[i].1@)
                } else {
                    (Seq::empty(), JsonView::Null)
                },
        )
    }

    /// The view of an array or an object is the views of what it holds.
    pub proof fn lemma_view_unfolds(&self)
        ensures
            self matches Json::Array(items) ==> self@ == JsonView::Array(
                Self::array_view(items@),
            ),
            self matches Json::Object(members) ==> self@ == JsonView::Object(
                Self::object_view(members@),
            ),
    {
        reveal_with_fuel(Json::content, 2);
        match self {
            Json::Array(items) => {
                assert(self@->Array_0 =~= Self::array_view(items@));
            },
            Json::Object(members) => {
                assert(self@->Object_0 =~= Self::object_view(members@));
            },
            _ => {},
        }
    }

    /// Returns whether the two arrays hold the same, item by item.
    fn same_items(left: &Vec<Json>, right: &Vec<Json>) -> (res: bool)
        ensures
            res == (Self::array_view(left@) == Self::array_view(right@)),
        decreases left,
    {
        if left.len() != right.len() {
            assert(Self::array_view(left@).len() != Self::array_view(right@).len());
            return false;
        }
        let mut at: usize = 0;
        while at < left.len()
            invariant
                at <= left@.len(),
                left@.len() == right@.len(),
                forall|i: int| 0 <= i < at ==> (#[trigger] left@[i])@ == right@[i]@,
            decreases left@.len() - at,
        {
            if !left[at].same_as(&right[at]) {
                assert(Self::array_view(left@)[at as int] != Self::array_view(right@)[at as int]);
                return false;
            }
            at = at + 1;
        }
        assert(Self::array_view(left@) =~= Self::array_view(right@));
        true
    }

    /// Returns whether the two objects hold the same, member by member.
    fn same_members(left: &Vec<(String, Json)>, right: &Vec<(String, Json)>) -> (res: bool)
        ensures
            res == (Self::object_view(left@) == Self::object_view(right@)),
        decreases left,
    {
        if left.len() != right.len() {
            assert(Self::object_view(left@).len() != Self::object_view(right@).len());
            return false;
        }
        let mut at: usize = 0;
        while at < left.len()
            invariant
                at <= left@.len(),
                left@.len() == right@.len(),
                forall|i: int|
                    0 <= i < at ==> (#[trigger] left@[i]).0@ == right@[i].0@ && left@[i].1@
                        == right@[i].1@,
            decreases left@.len() - at,
        {
            if !same_text(left[at].0.as_str(), right[at].0.as_str()) || !left[at].1.same_as(
                &right[at].1,
            ) {
                assert(Self::object_view(left@)[at as int] != Self::object_view(right@)[at as int]);
                return false;
            }
            at = at + 1;
        }
        assert(Self::object_view(left@) =~= Self::object_view(right@));
        true
    }

    /// Returns whether the two values hold the same.
    pub fn same_as(&self, other: &Json) -> (res: bool)
        ensures
            res == (self@ == other@),
        decreases self,
    {
        proof {
            self.lemma_view_unfolds();
            other.lemma_view_unfolds();
        }
        match self {
            Json::Null => matches!(other, Json::Null),
            Json::Bool(left) => match other {
                Json::Bool(right) => *left == *right,
                _ => false,
            },
            Json::Number(left) => match other {
                Json::Number(right) => *left == *right,
                _ => false,
            },
            Json::String(left) => match other {
                Json::String(right) => same_text(left.as_str(), right.as_str()),
                _ => false,
            },
            Json::Array(left) => match other {
                Json::Array(right) => Self::same_items(left, right),
                _ => false,
            },
            Json::Object(left) => match other {
                Json::Object(right) => Self::same_members(left, right),
                _ => false,
            },
        }
    }
}

impl JsonNumber {
    /// The number as an integer, if it is one that fits 64 bits with a sign.
    pub open spec fn integer(self) -> Option<int> {
        match self {
            JsonNumber::PosInt(value) => if value <= 0x7fff_ffff_ffff_ffff {
                Some(value as int)
            } else {
                None
            },
            JsonNumber::NegInt(value) => Some(value as int),
            JsonNumber::Float(_) => None,
        }
    }

    /// Returns the number as an integer of 64 bits with a sign, if it is
    /// one.
    pub fn as_i64(&self) -> (res: Option<i64>)
        ensures
            match res {
                Some(value) => self.integer() == Some(value as int),
                None => self.integer() is None,
            },
    {
        match self {
            JsonNumber::PosInt(value) => if *value <= 0x7fff_ffff_ffff_ffff {
                Some(*value as i64)
            } else {
                None
            },
            JsonNumber::NegInt(value) => Some(*value),
            JsonNumber::Float(_) => None,
        }
    }
}

impl JsonView {
    /// Whether `self` comes before `other` where the items of an array are
    /// put in order: `false` before `true`, a text before a text that follows
    /// it in the order of strings, a smaller integer before a greater one,
    /// and an array or object before one that holds more. Values of two
    /// kinds are in no order.
    pub open spec fn before(self, other: JsonView) -> bool {
        match (self, other) {
            (JsonView::Bool(left), JsonView::Bool(right)) => !left && right,
            (JsonView::String(left), JsonView::String(right)) => text_before(left, right),
            (JsonView::Number(left), JsonView::Number(right)) => match (
                left.integer(),
                right.integer(),
            ) {
                (Some(left), Some(right)) => left < right,
                _ => false,
            },
            (JsonView::Array(left), JsonView::Array(right)) => left.len() < right.len(),
            (JsonView::Object(left), JsonView::Object(right)) => left.len() < right.len(),
            _ => false,
        }
    }

    /// Whether the two values are of one kind, and integers where they are
    /// numbers, so that they can be put in order.
    pub open spec fn comparable(self, other: JsonView) -> bool {
        match (self, other) {
            (JsonView::Null, JsonView::Null) => true,
            (JsonView::Bool(_), JsonView::Bool(_)) => true,
            (JsonView::String(_), JsonView::String(_)) => true,
            (JsonView::Number(left), JsonView::Number(right)) => left.integer() is Some
                && right.integer() is Some,
            (JsonView::Array(_), JsonView::Array(_)) => true,
            (JsonView::Object(_), JsonView::Object(_)) => true,
            _ => false,
        }
    }

    /// Whether every item from the place `from` on can be put in order
    /// inside.
    pub open spec fn items_sortable(items: Seq<JsonView>, from: int) -> bool
        decreases items, items.len() - from,
    {
        if 0 <= from < items.len() {
            items[from].sortable() && Self::items_sortable(items, from + 1)
        } else {
            true
        }
    }

    /// Whether the value of every member from the place `from` on can be put
    /// in order inside.
    pub open spec fn members_sortable(members: Seq<(Seq<char>, JsonView)>, from: int) -> bool
        decreases members, members.len() - from,
    {
        if 0 <= from < members.len() {
            members[from].1.sortable() && Self::members_sortable(members, from + 1)
        } else {
            true
        }
    }

    /// Whether the items of every array inside the value can be put in
    /// order: the items of an array are of one kind, and integers where they
    /// are numbers.
    pub open spec fn sortable(self) -> bool
        decreases self, 0int,
    {
        match self {
            JsonView::Array(items) => {
                &&& Self::items_sortable(items, 0)
                &&& forall|i: int, j: int|
                    0 <= i < j < items.len() ==> (#[trigger] items[i]).comparable(
                        #[trigger] items[j],
                    )
            },
            JsonView::Object(members) => Self::members_sortable(members, 0),
            _ => true,
        }
    }

    /// `sorted` with `item` put behind the last item that it does not come
    /// before.
    pub open spec fn inserted(sorted: Seq<JsonView>, item: JsonView) -> Seq<JsonView>
        decreases sorted.len(),
    {
        if sorted.len() > 0 && item.before(sorted.last()) {
            Self::inserted(sorted.drop_last(), item).push(sorted.last())
        } else {
            sorted.push(item)
        }
    }

    /// The items in ascending order. Items of which none comes before the
    /// other keep their order.
    pub open spec fn in_order(items: Seq<JsonView>) -> Seq<JsonView>
        decreases items.len(),
    {
        if items.len() == 0 {
            items
        } else {
            Self::inserted(Self::in_order(items.drop_last()), items.last())
        }
    }

    /// The items, each with the items of every array inside it in ascending
    /// order.
    pub open spec fn each_sorted(items: Seq<JsonView>) -> Seq<JsonView>
        decreases items,
    {
        Seq::new(
            items.len(),
            |i: int|
                if 0 <= i < items.len() {
                    items[i].sorted()
                } else {
                    JsonView::Null
                },
        )
    }

    /// The members, each with the items of every array inside its value in
    /// ascending order.
    pub open spec fn members_sorted(members: Seq<(Seq<char>, JsonView)>) -> Seq<
        (Seq<char>, JsonView),
    >
        decreases members,
    {
        Seq::new(
            members.len(),
            |i: int|
                if 0 <= i < members.len() {
                    (members[i].0, members[i].1.sorted())
                } else {
                    (Seq::empty(), JsonView::Null)
                },
        )
    }

    /// The value with the items of every array inside it in ascending
    /// order.
    pub open spec fn sorted(self) -> JsonView
        decreases self,
    {
        match self {
            JsonView::Array(items) => JsonView::Array(Self::in_order(Self::each_sorted(items))),
            JsonView::Object(members) => JsonView::Object(Self::members_sorted(members)),
            _ => self,
        }
    }
}

impl Json {
    /// Returns whether `self` comes before `other` where the items of an
    /// array are put in order.
    pub fn comes_first(&self, other: &Json) -> (res: bool)
        ensures
            res == self@.before(other@),
    {
        proof {
            self.lemma_view_unfolds();
            other.lemma_view_unfolds();
        }
        match self {
            Json::Null => false,
            Json::Bool(left) => match other {
                Json::Bool(right) => !*left && *right,
                _ => false,
            },
            Json::Number(left) => match other {
                Json::Number(right) => match (left.as_i64(), right.as_i64()) {
                    (Some(left), Some(right)) => left < right,
                    _ => false,
                },
                _ => false,
            },
            Json::String(left) => match other {
                Json::String(right) => comes_before(left.as_str(), right.as_str()),
                _ => false,
            },
            Json::Array(left) => match other {
                Json::Array(right) => left.len() < right.len(),
                _ => false,
            },
            Json::Object(left) => match other {
                Json::Object(right) => left.len() < right.len(),
                _ => false,
            },
        }
    }

    /// Returns whether the two values can be put in order.
    pub fn comparable_with(&self, other: &Json) -> (res: bool)
        ensures
            res == self@.comparable(other@),
    {
        proof {
            self.lemma_view_unfolds();
            other.lemma_view_unfolds();
        }
        match self {
            Json::Null => matches!(other, Json::Null),
            Json::Bool(_) => matches!(other, Json::Bool(_)),
            Json::Number(left) => match other {
                Json::Number(right) => left.as_i64().is_some() && right.as_i64().is_some(),
                _ => false,
            },
            Json::String(_) => matches!(other, Json::String(_)),
            Json::Array(_) => matches!(other, Json::Array(_)),
            Json::Object(_) => matches!(other, Json::Object(_)),
        }
    }

    /// Puts `item` into `sorted` behind the last item that it does not come
    /// before.
    fn insert_in_order(sorted: &mut Vec<Json>, item: Json)
        ensures
            Self::array_view(final(sorted)@) == JsonView::inserted(
                Self::array_view(old(sorted)@),
                item@,
            ),
    {
        let ghost start = Self::array_view(sorted@);
        let mut place: usize = sorted.len();
        assert(start.take(place as int) =~= start);
        assert(start.skip(place as int) =~= Seq::empty());
        assert(JsonView::inserted(start, item@) + Seq::<JsonView>::empty() =~= JsonView::inserted(
            start,
            item@,
        ));
        while place > 0 && item.comes_first(&sorted[place - 1])
            invariant
                place <= sorted@.len(),
                start == Self::array_view(sorted@),
                JsonView::inserted(start, item@) == JsonView::inserted(
                    start.take(place as int),
                    item@,
                ) + start.skip(place as int),
            decreases place,
        {
            proof {
                let front = start.take(place as int);
                assert(front.last() == start[place - 1]);
                assert(front.drop_last() =~= start.take(place - 1));
                assert(JsonView::inserted(front, item@) == JsonView::inserted(
                    front.drop_last(),
                    item@,
                ).push(front.last()));
                assert(JsonView::inserted(front.drop_last(), item@).push(front.last())
                    + start.skip(place as int) =~= JsonView::inserted(front.drop_last(), item@)
                    + start.skip(place - 1));
            }
            place = place - 1;
        }
        proof {
            let front = start.take(place as int);
            if place > 0 {
                assert(front.last() == start[place - 1]);
            }
            assert(JsonView::inserted(front, item@) == front.push(item@));
        }
        sorted.insert(place, item);
        assert(Self::array_view(sorted@) =~= start.take(place as int).push(item@) + start.skip(
            place as int,
        ));
    }

    /// The views of the items, each with its arrays in order.
    pub open spec fn sorted_children(items: Seq<Json>) -> Seq<JsonView> {
        Seq::new(
            items.len(),
            |i: int|
                if 0 <= i < items.len() {
                    items[i]@.sorted()
                } else {
                    JsonView::Null
                },
        )
    }

    /// Sorts the items of an array, and the arrays inside them.
    fn sorted_items(items: &Vec<Json>) -> (res: Vec<Json>)
        ensures
            Self::array_view(res@) == JsonView::in_order(Self::sorted_children(items@)),
        decreases items,
    {
        let ghost children = Self::sorted_children(items@);
        let mut sorted: Vec<Json> = Vec::with_capacity(items.len());
        let mut at: usize = 0;
        assert(children.take(0) =~= Seq::empty());
        assert(Self::array_view(sorted@) =~= JsonView::in_order(children.take(0)));
        while at < items.len()
            invariant
                at <= items@.len(),
                children == Self::sorted_children(items@),
                Self::array_view(sorted@) == JsonView::in_order(children.take(at as int)),
            decreases items@.len() - at,
        {
            let child = items[at].sort_value();
            Self::insert_in_order(&mut sorted, child);
            proof {
                let next = children.take(at + 1);
                assert(next.drop_last() =~= children.take(at as int));
                assert(next.last() == children[at as int]);
            }
            at = at + 1;
        }
        assert(children.take(at as int) =~= children);
        sorted
    }

    /// Sorts the arrays inside the members of an object.
    fn sorted_members(members: &Vec<(String, Json)>) -> (res: Vec<(String, Json)>)
        ensures
            res@.len() == members@.len(),
            forall|i: int|
                0 <= i < res@.len() ==> (#[trigger] res@[i]).0@ == members@[i].0@ && res@[i].1@
                    == members@[i].1@.sorted(),
        decreases members,
    {
        let mut sorted: Vec<(String, Json)> = Vec::with_capacity(members.len());
        let mut at: usize = 0;
        while at < members.len()
            invariant
                at <= members@.len(),
                sorted@.len() == at,
                forall|i: int|
                    0 <= i < at ==> (#[trigger] sorted@[i]).0@ == members@[i].0@ && sorted@[i].1@
                        == members@[i].1@.sorted(),
            decreases members@.len() - at,
        {
            let value = members[at].1.sort_value();
            sorted.push((members[at].0.clone(), value));
            at = at + 1;
        }
        sorted
    }

    /// Copies the value with the items of every array inside it in
    /// ascending order. Items of which none comes before the other keep
    /// their order.
    pub fn sort_value(&self) -> (res: Json)
        ensures
            res@ == self@.sorted(),
        decreases self,
    {
        proof {
            self.lemma_view_unfolds();
        }
        match self {
            Json::Null => Json::Null,
            Json::Bool(value) => Json::Bool(*value),
            Json::Number(value) => Json::Number(*value),
            Json::String(value) => Json::String(value.clone()),
            Json::Array(items) => {
                let res = Json::Array(Self::sorted_items(items));
                proof {
                    res.lemma_view_unfolds();
                    assert(JsonView::each_sorted(Self::array_view(items@)) =~= Self::sorted_children(
                        items@,
                    ));
                }
                res
            },
            Json::Object(members) => {
                let res = Json::Object(Self::sorted_members(members));
                proof {
                    res.lemma_view_unfolds();
                    assert(res@->Object_0 =~= JsonView::members_sorted(
                        Self::object_view(members@),
                    ));
                }
                res
            },
        }
    }
}

impl Json {
    /// Returns whether all items can be put in order, together and each by
    /// itself.
    fn items_sortable(items: &Vec<Json>) -> (res: bool)
        ensures
            res == JsonView::Array(Self::array_view(items@)).sortable(),
        decreases items,
    {
        let ghost views = Self::array_view(items@);
        let mut at: usize = 0;
        while at < items.len()
            invariant
                at <= items@.len(),
                views == Self::array_view(items@),
                JsonView::items_sortable(views, 0) == JsonView::items_sortable(views, at as int),
                forall|i: int| 0 < i < at ==> views[0].comparable(#[trigger] views[i]),
            decreases items@.len() - at,
        {
            if !items[at].is_sortable() {
                assert(!JsonView::items_sortable(views, at as int));
                return false;
            }
            if at > 0 && !items[0].comparable_with(&items[at]) {
                assert(!views[0].comparable(views[at as int]));
                return false;
            }
            at = at + 1;
        }
        assert forall|i: int, j: int| 0 <= i < j < views.len() implies (#[trigger] views[i]).comparable(
            #[trigger] views[j],
        ) by {
            if i > 0 {
                assert(views[0].comparable(views[i]));
                assert(views[0].comparable(views[j]));
            }
        }
        true
    }

    /// Returns whether the values of all members can be put in order.
    fn members_sortable(members: &Vec<(String, Json)>) -> (res: bool)
        ensures
            res == JsonView::Object(Self::object_view(members@)).sortable(),
        decreases members,
    {
        let ghost views = Self::object_view(members@);
        let mut at: usize = 0;
        while at < members.len()
            invariant
                at <= members@.len(),
                views == Self::object_view(members@),
                JsonView::members_sortable(views, 0) == JsonView::members_sortable(
                    views,
                    at as int,
                ),
            decreases members@.len() - at,
        {
            if !members[at].1.is_sortable() {
                assert(!JsonView::members_sortable(views, at as int));
                return false;
            }
            at = at + 1;
        }
        true
    }

    /// Returns whether the items of every array inside the value can be put
    /// in order: they are of one kind, and integers where they are numbers.
    pub fn is_sortable(&self) -> (res: bool)
        ensures
            res == self@.sortable(),
        decreases self,
    {
        proof {
            self.lemma_view_unfolds();
        }
        match self {
            Json::Array(items) => Self::items_sortable(items),
            Json::Object(members) => Self::members_sortable(members),
            _ => true,
        }
    }
}

/// Of two texts not both come before the other.
pub proof fn lemma_text_before_is_one_way(left: Seq<char>, right: Seq<char>)
    ensures
        !(text_before(left, right) && text_before(right, left)),
    decreases left.len(),
{
    if left.len() > 0 && right.len() > 0 && left[0] == right[0] {
        lemma_text_before_is_one_way(left.skip(1), right.skip(1));
    }
}

/// Of two values not both come before the other.
pub proof fn lemma_before_is_one_way(left: JsonView, right: JsonView)
    ensures
        !(left.before(right) && right.before(left)),
{
    match (left, right) {
        (JsonView::String(left), JsonView::String(right)) => {
            lemma_text_before_is_one_way(left, right);
        },
        _ => {},
    }
}

/// Whether no item comes before the item in front of it.
pub open spec fn ascends(items: Seq<JsonView>) -> bool {
    forall|i: int| 0 <= i < items.len() - 1 ==> !(#[trigger] items[i + 1]).before(items[i])
}

/// Putting an item into a list that ascends gives a list that ascends and
/// is longer by one.
pub proof fn lemma_inserted_ascends(sorted: Seq<JsonView>, item: JsonView)
    requires
        ascends(sorted),
    ensures
        ascends(JsonView::inserted(sorted, item)),
        JsonView::inserted(sorted, item).len() == sorted.len() + 1,
        JsonView::inserted(sorted, item).last() == (if sorted.len() > 0 && item.before(
            sorted.last(),
        ) {
            sorted.last()
        } else {
            item
        }),
    decreases sorted.len(),
{
    let longer = JsonView::inserted(sorted, item);
    if sorted.len() > 0 && item.before(sorted.last()) {
        let front = sorted.drop_last();
        assert forall|i: int| 0 <= i < front.len() - 1 implies !(#[trigger] front[i + 1]).before(
            front[i],
        ) by {
            assert(front[i + 1] == sorted[i + 1]);
        }
        lemma_inserted_ascends(front, item);
        let shorter = JsonView::inserted(front, item);
        assert forall|i: int| 0 <= i < longer.len() - 1 implies !(#[trigger] longer[i + 1]).before(
            longer[i],
        ) by {
            if i + 1 < shorter.len() {
                assert(longer[i + 1] == shorter[i + 1]);
            } else {
                // the last item of the shorter list is the new item or the
                // item that stood in front of the last one
                if front.len() > 0 && item.before(front.last()) {
                    assert(sorted[front.len() as int] == sorted.last());
                    assert(!sorted[front.len() - 1 + 1].before(sorted[front.len() - 1]));
                } else {
                    lemma_before_is_one_way(item, sorted.last());
                }
            }
        }
    } else {
        assert forall|i: int| 0 <= i < longer.len() - 1 implies !(#[trigger] longer[i + 1]).before(
            longer[i],
        ) by {
            if i + 1 < sorted.len() {
                assert(longer[i + 1] == sorted[i + 1]);
            }
        }
    }
}

/// The items in order ascend, and are as many as before.
pub proof fn lemma_in_order_ascends(items: Seq<JsonView>)
    ensures
        ascends(JsonView::in_order(items)),
        JsonView::in_order(items).len() == items.len(),
    decreases items.len(),
{
    if items.len() > 0 {
        lemma_in_order_ascends(items.drop_last());
        lemma_inserted_ascends(JsonView::in_order(items.drop_last()), items.last());
    }
}

} // verus!
