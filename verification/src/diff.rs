//! The differences between two JSON values, each with the path that leads
//! to it.

use crate::json::{Json, JsonView};
use crate::text::{comes_before, decimal, decimal_usize, same_text};
use vstd::string::StringExecFns;
use vstd::prelude::*;

verus! {

/// One step of a path into a JSON value.
#[derive(Eq, PartialEq, Debug, Clone)]
pub enum ValueIndex {
    /// The place of an item in an array.
    Number(usize),
    /// The key of a member of an object.
    Key(String),
}

/// What a step of a path holds.
pub enum ValueIndexView {
    Number(usize),
    Key(Seq<char>),
}

impl View for ValueIndex {
    type V = ValueIndexView;

    open spec fn view(&self) -> ValueIndexView {
        match self {
            ValueIndex::Number(place) => ValueIndexView::Number(*place),
            ValueIndex::Key(key) => ValueIndexView::Key(key@),
        }
    }
}

/// A place where two JSON values differ.
pub struct ValueDiff<'a> {
    /// The path from the root to the place.
    pub path: Vec<ValueIndex>,
    /// What the left value holds there, `Null` where it holds nothing.
    pub left: &'a Json,
    /// What the right value holds there, `Null` where it holds nothing.
    pub right: &'a Json,
}

/// What a difference holds.
pub struct ValueDiffView {
    pub path: Seq<ValueIndexView>,
    pub left: JsonView,
    pub right: JsonView,
}

impl<'a> View for ValueDiff<'a> {
    type V = ValueDiffView;

    open spec fn view(&self) -> ValueDiffView {
        ValueDiffView { path: path_view(self.path@), left: self.left@, right: self.right@ }
    }
}

impl<'a> ValueDiff<'a> {
    fn new(path: Vec<ValueIndex>, left: &'a Json, right: &'a Json) -> (res: Self)
        ensures
            res@ == (ValueDiffView { path: path_view(path@), left: left@, right: right@ }),
    {
        ValueDiff { path, left, right }
    }
}

/// What the steps of a path hold.
pub open spec fn path_view(path: Seq<ValueIndex>) -> Seq<ValueIndexView> {
    path.map_values(|step: ValueIndex| step@)
}

/// What a list of differences holds.
pub open spec fn diffs_view<'a>(diffs: Seq<ValueDiff<'a>>) -> Seq<ValueDiffView> {
    diffs.map_values(|found: ValueDiff<'a>| found@)
}

/// The differences between `left` and `right`, which lie at `path`.
///
/// Two arrays are compared item by item as far as the shorter one reaches.
/// Two objects are compared member by member in the order of their keys; a
/// member that one side lacks is compared with `Null`. Any other two values
/// differ as a whole where they are unequal.
pub open spec fn diff_of(path: Seq<ValueIndexView>, left: &Json, right: &Json) -> Seq<
    ValueDiffView,
>
    decreases left, 2nat, 0nat,
{
    match left {
        Json::Array(_) if right is Array => array_diff_of(path, left, right, 0),
        Json::Object(_) if right is Object => object_diff_of(path, left, right, 0, 0),
        _ => if left@ != right@ {
            seq![ValueDiffView { path, left: left@, right: right@ }]
        } else {
            Seq::empty()
        },
    }
}

/// The differences between the items of two arrays from the place `from`
/// on.
pub open spec fn array_diff_of(path: Seq<ValueIndexView>, left: &Json, right: &Json, from: nat) -> Seq<
    ValueDiffView,
>
    decreases left, 1nat, left->Array_0@.len() - from,
{
    match left {
        Json::Array(items) => match right {
            Json::Array(others) => if from < items@.len() && from < others@.len() {
                diff_of(
                    path.push(ValueIndexView::Number(from as usize)),
                    &items@[from as int],
                    &others@[from as int],
                ) + array_diff_of(path, left, right, from + 1)
            } else {
                Seq::empty()
            },
            _ => Seq::empty(),
        },
        _ => Seq::empty(),
    }
}

/// The differences between the members of two objects, from the member
/// `from` of the left one and the member `other_from` of the right one on.
pub open spec fn object_diff_of(
    path: Seq<ValueIndexView>,
    left: &Json,
    right: &Json,
    from: nat,
    other_from: nat,
) -> Seq<ValueDiffView>
    decreases
            left,
            1nat,
            (if from < left->Object_0@.len() {
                left->Object_0@.len() - from
            } else {
                0
            }) + (if other_from < right->Object_0@.len() {
                right->Object_0@.len() - other_from
            } else {
                0
            }),
{
    match left {
        Json::Object(members) => match right {
            Json::Object(others) => if from < members@.len() && (other_from >= others@.len()
                || crate::text::text_before(members@[from as int].0@, others@[other_from as int].0@)) {
                seq![
                    ValueDiffView {
                        path: path.push(ValueIndexView::Key(members@[from as int].0@)),
                        left: members@[from as int].1@,
                        right: JsonView::Null,
                    },
                ] + object_diff_of(path, left, right, from + 1, other_from)
            } else if other_from < others@.len() && (from >= members@.len()
                || members@[from as int].0@ != others@[other_from as int].0@) {
                seq![
                    ValueDiffView {
                        path: path.push(ValueIndexView::Key(others@[other_from as int].0@)),
                        left: JsonView::Null,
                        right: others@[other_from as int].1@,
                    },
                ] + object_diff_of(path, left, right, from, other_from + 1)
            } else if from < members@.len() && other_from < others@.len() {
                diff_of(
                    path.push(ValueIndexView::Key(members@[from as int].0@)),
                    &members@[from as int].1,
                    &others@[other_from as int].1,
                ) + object_diff_of(path, left, right, from + 1, other_from + 1)
            } else {
                Seq::empty()
            },
            _ => Seq::empty(),
        },
        _ => Seq::empty(),
    }
}

/// Copies a path.
fn clone_path(path: &Vec<ValueIndex>) -> (res: Vec<ValueIndex>)
    ensures
        path_view(res@) == path_view(path@),
{
    let mut res: Vec<ValueIndex> = Vec::with_capacity(path.len());
    let mut at: usize = 0;
    while at < path.len()
        invariant
            at <= path@.len(),
            res@.len() == at,
            forall|i: int| 0 <= i < at ==> (#[trigger] res@[i])@ == path@[i]@,
        decreases path@.len() - at,
    {
        let step = match &path[at] {
            ValueIndex::Number(place) => ValueIndex::Number(*place),
            ValueIndex::Key(key) => ValueIndex::Key(key.clone()),
        };
        res.push(step);
        at = at + 1;
    }
    assert(path_view(res@) =~= path_view(path@));
    res
}

/// The path that leads one step further than `path`.
fn extend_path(path: &Vec<ValueIndex>, step: ValueIndex) -> (res: Vec<ValueIndex>)
    ensures
        path_view(res@) == path_view(path@).push(step@),
{
    let mut res = clone_path(path);
    let ghost before = res@;
    res.push(step);
    assert(path_view(res@) =~= path_view(before).push(step@));
    res
}

/// Appends the differences between the items of two arrays to `out`.
fn diff_array<'a>(
    path: &Vec<ValueIndex>,
    left: &'a Json,
    right: &'a Json,
    out: &mut Vec<ValueDiff<'a>>,
)
    requires
        left is Array,
        right is Array,
    ensures
        diffs_view(final(out)@) == diffs_view(old(out)@) + array_diff_of(
            path_view(path@),
            left,
            right,
            0,
        ),
    decreases left, 1nat,
{
    let ghost start = diffs_view(out@);
    match left {
        Json::Array(items) => match right {
            Json::Array(others) => {
                let mut at: usize = 0;
                while at < items.len() && at < others.len()
                    invariant
                        *left == Json::Array(*items),
                        *right == Json::Array(*others),
                        start + array_diff_of(path_view(path@), left, right, 0) == diffs_view(out@)
                            + array_diff_of(path_view(path@), left, right, at as nat),
                    decreases items@.len() - at,
                {
                    let ghost before = diffs_view(out@);
                    let step = extend_path(path, ValueIndex::Number(at));
                    diff_(step, &items[at], &others[at], out);
                    proof {
                        let here = diff_of(
                            path_view(path@).push(ValueIndexView::Number(at)),
                            &items@[at as int],
                            &others@[at as int],
                        );
                        let rest = array_diff_of(path_view(path@), left, right, (at + 1) as nat);
                        assert(array_diff_of(path_view(path@), left, right, at as nat) == here
                            + rest);
                        assert(before + (here + rest) =~= (before + here) + rest);
                    }
                    at = at + 1;
                }
                assert(array_diff_of(path_view(path@), left, right, at as nat) =~= Seq::empty());
                assert(diffs_view(out@) + Seq::<ValueDiffView>::empty() =~= diffs_view(out@));
            },
            _ => {},
        },
        _ => {},
    }
}

/// Appends the differences between the members of two objects to `out`.
fn diff_object<'a>(
    path: &Vec<ValueIndex>,
    left: &'a Json,
    right: &'a Json,
    out: &mut Vec<ValueDiff<'a>>,
)
    requires
        left is Object,
        right is Object,
    ensures
        diffs_view(final(out)@) == diffs_view(old(out)@) + object_diff_of(
            path_view(path@),
            left,
            right,
            0,
            0,
        ),
    decreases left, 1nat,
{
    let ghost start = diffs_view(out@);
    match left {
        Json::Object(members) => match right {
            Json::Object(others) => {
                let mut at: usize = 0;
                let mut other_at: usize = 0;
                while at < members.len() || other_at < others.len()
                    invariant
                        *left == Json::Object(*members),
                        *right == Json::Object(*others),
                        at <= members@.len(),
                        other_at <= others@.len(),
                        start + object_diff_of(path_view(path@), left, right, 0, 0) == diffs_view(
                            out@,
                        ) + object_diff_of(
                            path_view(path@),
                            left,
                            right,
                            at as nat,
                            other_at as nat,
                        ),
                    decreases members@.len() - at + others@.len() - other_at,
                {
                    let ghost before = diffs_view(out@);
                    let ghost all = object_diff_of(
                        path_view(path@),
                        left,
                        right,
                        at as nat,
                        other_at as nat,
                    );
                    if at < members.len() && (other_at >= others.len() || comes_before(
                        members[at].0.as_str(),
                        others[other_at].0.as_str(),
                    )) {
                        let step = extend_path(path, ValueIndex::Key(members[at].0.clone()));
                        out.push(ValueDiff::new(step, &members[at].1, &Json::Null));
                        proof {
                            let here = seq![
                                ValueDiffView {
                                    path: path_view(path@).push(
                                        ValueIndexView::Key(members@[at as int].0@),
                                    ),
                                    left: members@[at as int].1@,
                                    right: JsonView::Null,
                                },
                            ];
                            let rest = object_diff_of(
                                path_view(path@),
                                left,
                                right,
                                (at + 1) as nat,
                                other_at as nat,
                            );
                            assert(all == here + rest);
                            assert(diffs_view(out@) =~= before + here);
                            assert(before + (here + rest) =~= (before + here) + rest);
                        }
                        at = at + 1;
                    } else if other_at < others.len() && (at >= members.len() || !same_text(
                        members[at].0.as_str(),
                        others[other_at].0.as_str(),
                    )) {
                        let step = extend_path(path, ValueIndex::Key(others[other_at].0.clone()));
                        out.push(ValueDiff::new(step, &Json::Null, &others[other_at].1));
                        proof {
                            let here = seq![
                                ValueDiffView {
                                    path: path_view(path@).push(
                                        ValueIndexView::Key(others@[other_at as int].0@),
                                    ),
                                    left: JsonView::Null,
                                    right: others@[other_at as int].1@,
                                },
                            ];
                            let rest = object_diff_of(
                                path_view(path@),
                                left,
                                right,
                                at as nat,
                                (other_at + 1) as nat,
                            );
                            assert(all == here + rest);
                            assert(diffs_view(out@) =~= before + here);
                            assert(before + (here + rest) =~= (before + here) + rest);
                        }
                        other_at = other_at + 1;
                    } else {
                        let step = extend_path(path, ValueIndex::Key(members[at].0.clone()));
                        diff_(step, &members[at].1, &others[other_at].1, out);
                        proof {
                            let here = diff_of(
                                path_view(path@).push(ValueIndexView::Key(members@[at as int].0@)),
                                &members@[at as int].1,
                                &others@[other_at as int].1,
                            );
                            let rest = object_diff_of(
                                path_view(path@),
                                left,
                                right,
                                (at + 1) as nat,
                                (other_at + 1) as nat,
                            );
                            assert(all == here + rest);
                            assert(before + (here + rest) =~= (before + here) + rest);
                        }
                        at = at + 1;
                        other_at = other_at + 1;
                    }
                }
                assert(object_diff_of(path_view(path@), left, right, at as nat, other_at as nat)
                    =~= Seq::empty());
                assert(diffs_view(out@) + Seq::<ValueDiffView>::empty() =~= diffs_view(out@));
            },
            _ => {},
        },
        _ => {},
    }
}

/// Appends the differences between `left` and `right`, which lie at `path`,
/// to `out`.
fn diff_<'a>(path: Vec<ValueIndex>, left: &'a Json, right: &'a Json, out: &mut Vec<ValueDiff<'a>>)
    ensures
        diffs_view(final(out)@) == diffs_view(old(out)@) + diff_of(path_view(path@), left, right),
    decreases left, 2nat,
{
    let ghost before = diffs_view(out@);
    match left {
        Json::Array(_) if matches!(right, Json::Array(_)) => diff_array(&path, left, right, out),
        Json::Object(_) if matches!(right, Json::Object(_)) => diff_object(
            &path,
            left,
            right,
            out,
        ),
        _ => {
            if !left.same_as(right) {
                out.push(ValueDiff::new(path, left, right));
                assert(diffs_view(out@) =~= before + diff_of(path_view(path@), left, right));
            } else {
                assert(diffs_view(out@) =~= before + diff_of(path_view(path@), left, right));
            }
        },
    }
}

/// The places where `left` and `right` differ, in the order of a walk
/// through both values from the root.
pub fn diff<'a>(left: &'a Json, right: &'a Json) -> (res: Vec<ValueDiff<'a>>)
    ensures
        diffs_view(res@) == diff_of(Seq::empty(), left, right),
{
    let mut out: Vec<ValueDiff<'a>> = Vec::new();
    diff_(Vec::new(), left, right, &mut out);
    assert(path_view(Seq::<ValueIndex>::empty()) =~= Seq::empty());
    assert(diffs_view(Seq::<ValueDiff<'a>>::empty()) + diff_of(Seq::empty(), left, right)
        =~= diff_of(Seq::empty(), left, right));
    out
}

/// What a path is written out as: `root`, then every step, the place of an
/// item in square brackets and the key of a member behind a dot.
pub open spec fn path_text_of(path: Seq<ValueIndexView>) -> Seq<char>
    decreases path.len(),
{
    if path.len() == 0 {
        "root"@
    } else {
        path_text_of(path.drop_last()) + (match path.last() {
            ValueIndexView::Number(place) => "["@ + decimal(place as int) + "]"@,
            ValueIndexView::Key(key) => "."@ + key,
        })
    }
}

/// Writes a path out, such as `root[3].name`.
pub fn path_text(path: &Vec<ValueIndex>) -> (res: String)
    ensures
        res@ == path_text_of(path_view(path@)),
{
    let mut output = "root".to_owned();
    let mut at: usize = 0;
    assert(path_view(path@).subrange(0, 0) =~= Seq::empty());
    while at < path.len()
        invariant
            at <= path@.len(),
            output@ == path_text_of(path_view(path@).subrange(0, at as int)),
        decreases path@.len() - at,
    {
        proof {
            let next = path_view(path@).subrange(0, at + 1);
            assert(next.drop_last() =~= path_view(path@).subrange(0, at as int));
            assert(next.last() == path@[at as int]@);
        }
        let ghost before = output@;
        match &path[at] {
            ValueIndex::Number(place) => {
                output.append("[");
                let digits = decimal_usize(*place);
                output.append(digits.as_str());
                output.append("]");
                assert(output@ =~= before + ("["@ + decimal(*place as int) + "]"@));
            },
            ValueIndex::Key(key) => {
                output.append(".");
                output.append(key.as_str());
                assert(output@ =~= before + ("."@ + key@));
            },
        }
        at = at + 1;
    }
    assert(path_view(path@).subrange(0, at as int) =~= path_view(path@));
    output
}

} // verus!
