//! Widget names. A widget that is not named by `#[name]` gets a name made
//! from its type and a counter: the `n`-th widget of a kind is named after
//! the kind, followed by `n`.
use vstd::prelude::*;

use crate::model::ViewError;
use crate::table::{assoc_insert, lemma_assoc_insert, keys_unique, lookup, Table};
use crate::text::{
    chars_of, decimal, last_index_of, lemma_decimal_injective, lemma_last_index_of, lowercase,
    push_decimal, rfind, string_from_chars, to_lowercase, is_lowercase, char_lowercase,
};
use crate::widget::TypePath;

verus! {

/// How many widgets of each kind have been named so far.
pub struct NameIndex {
    counts: Table<String, u32>,
}

impl DeepView for NameIndex {
    type V = Seq<(Seq<char>, u32)>;

    closed spec fn deep_view(&self) -> Seq<(Seq<char>, u32)> {
        self.counts.deep_view()
    }
}

impl NameIndex {
    /// A counter for which no widget has been named yet.
    pub fn new() -> (n: Self)
        ensures
            n.deep_view() == Seq::<(Seq<char>, u32)>::empty(),
            names_wf(n.deep_view()),
    {
        NameIndex { counts: Table::new() }
    }

    /// How many widgets of the kind `base` have been named.
    pub fn count(&self, base: &String) -> (c: u32)
        ensures
            c == count_of(self.deep_view(), base@),
    {
        match self.counts.get(base) {
            Some(c) => *c,
            None => 0,
        }
    }
}

/// The identifiers of a path's segments, written one after the other.
pub open spec fn path_string(segments: Seq<Seq<char>>) -> Seq<char>
    decreases segments.len(),
{
    if segments.len() == 0 {
        Seq::empty()
    } else {
        path_string(segments.drop_last()) + segments.last()
    }
}

/// The kind of a widget: its path's text after the last `:`, lower-cased.
pub open spec fn base_name(segments: Seq<Seq<char>>) -> Seq<char> {
    let name = path_string(segments);
    match last_index_of(name, ':') {
        Some(i) => lowercase(name.subrange(i + 1, name.len() as int)),
        None => lowercase(name),
    }
}

/// How many widgets of the kind `base` the counter has seen.
pub open spec fn count_of(names: Seq<(Seq<char>, u32)>, base: Seq<char>) -> u32 {
    match lookup(names, base) {
        Some(c) => c,
        None => 0,
    }
}

/// Naming the next widget of the kind `base`: the name, and the counter
/// afterwards.
pub open spec fn name_for(base: Seq<char>, names: Seq<(Seq<char>, u32)>) -> Result<
    (Seq<char>, Seq<(Seq<char>, u32)>),
    ViewError,
> {
    let c = count_of(names, base);
    if c == u32::MAX {
        Err(ViewError::NameCounterOverflow)
    } else {
        Ok((base + decimal((c + 1) as nat), assoc_insert(names, base, (c + 1) as u32)))
    }
}

/// Naming a widget with the type segments `segments`: the name, and the
/// counter afterwards.
pub open spec fn gen_name(segments: Seq<Seq<char>>, names: Seq<(Seq<char>, u32)>) -> Result<
    (Seq<char>, Seq<(Seq<char>, u32)>),
    ViewError,
> {
    name_for(base_name(segments), names)
}

/// Whether the last segment of a path starts with a lowercase character
/// (a path that names a function or a module, not a widget type).
pub open spec fn spec_last_segment_lowercase(segments: Seq<Seq<char>>) -> Result<bool, ViewError> {
    if segments.len() == 0 {
        Err(ViewError::EmptyPath)
    } else if segments.last().len() == 0 {
        Err(ViewError::EmptySegment)
    } else {
        Ok(char_lowercase(segments.last()[0]))
    }
}

/// The identifiers of the path's segments, written one after the other.
pub fn path_to_string(path: &TypePath) -> (s: String)
    ensures
        s@ == path_string(path.segments.deep_view()),
{
    let mut s = String::new();
    let mut i: usize = 0;
    let ghost segs = path.segments.deep_view();
    assert(segs.subrange(0, 0) =~= Seq::<Seq<char>>::empty());
    while i < path.segments.len()
        invariant
            i <= path.segments@.len(),
            segs == path.segments.deep_view(),
            s@ == path_string(segs.subrange(0, i as int)),
        decreases path.segments@.len() - i,
    {
        s.append(path.segments[i].as_str());
        i = i + 1;
        assert(segs.subrange(0, i as int).drop_last() =~= segs.subrange(0, i - 1));
    }
    assert(segs.subrange(0, i as int) =~= segs);
    s
}

/// Whether the path's last segment starts with a lowercase character.
pub fn last_segment_lowercase(segments: &Vec<String>) -> (r: Result<bool, ViewError>)
    ensures
        r == spec_last_segment_lowercase(segments.deep_view()),
{
    if segments.len() == 0 {
        return Err(ViewError::EmptyPath);
    }
    let last = &segments[segments.len() - 1];
    assert(last@ == segments.deep_view().last());
    if last.as_str().unicode_len() == 0 {
        return Err(ViewError::EmptySegment);
    }
    Ok(is_lowercase(last.as_str().get_char(0)))
}

/// The kind of a widget of type `path`.
pub fn widget_base_name(path: &TypePath) -> (b: String)
    ensures
        b@ == base_name(path.segments.deep_view()),
{
    let name = path_to_string(path);
    let chars = chars_of(name.as_str());
    let len = chars.len();
    match rfind(&chars, ':') {
        Some(i) => {
            proof {
                lemma_last_index_of(chars@, ':');
                assert(i < len);
            }
            let after = string_from_chars(&chars, i + 1);
            to_lowercase(after.as_str())
        },
        None => to_lowercase(name.as_str()),
    }
}

/// The name for the next widget of the kind `base`: `base` followed by the
/// number of widgets of that kind named so far, this one included.
pub fn next_name(base: String, names: &mut NameIndex) -> (r: Result<String, ViewError>)
    ensures
        match (r, name_for(base@, old(names).deep_view())) {
            (Ok(s), Ok((n, idx))) => s@ == n && final(names).deep_view() == idx,
            (Err(e), Err(e2)) => e == e2 && final(names).deep_view() == old(names).deep_view(),
            _ => false,
        },
        names_wf(old(names).deep_view()) ==> names_wf(final(names).deep_view()),
{
    let count = names.count(&base);
    if count == u32::MAX {
        return Err(ViewError::NameCounterOverflow);
    }
    let c = count + 1;
    let mut result = base.clone();
    push_decimal(&mut result, c);
    names.counts.insert(base, c);
    Ok(result)
}

/// Names a widget of type `path`: its kind followed by the number of widgets
/// of that kind named so far, this one included.
pub fn gen_widget_name(path: &TypePath, names: &mut NameIndex) -> (r: Result<String, ViewError>)
    ensures
        match (r, gen_name(path.segments.deep_view(), old(names).deep_view())) {
            (Ok(s), Ok((n, idx))) => s@ == n && final(names).deep_view() == idx,
            (Err(e), Err(e2)) => e == e2 && final(names).deep_view() == old(names).deep_view(),
            _ => false,
        },
        names_wf(old(names).deep_view()) ==> names_wf(final(names).deep_view()),
{
    let base = widget_base_name(path);
    next_name(base, names)
}

/// The counter only ever holds each kind once.
pub open spec fn names_wf(names: Seq<(Seq<char>, u32)>) -> bool {
    keys_unique(names)
}

/// Naming a widget moves the counter of its kind up by one and leaves the
/// counters of all other kinds as they were.
pub proof fn law_gen_name_counts(segments: Seq<Seq<char>>, names: Seq<(Seq<char>, u32)>)
    requires
        names_wf(names),
        gen_name(segments, names) is Ok,
    ensures
        ({
            let after = gen_name(segments, names).unwrap().1;
            let base = base_name(segments);
            &&& names_wf(after)
            &&& count_of(after, base) == count_of(names, base) + 1
            &&& forall|other: Seq<char>|
                other != base ==> count_of(after, other) == count_of(names, other)
        }),
{
    let base = base_name(segments);
    let c = count_of(names, base);
    lemma_assoc_insert(names, base, (c + 1) as u32);
}

/// Two widgets of the same kind named one after the other get different
/// names.
pub proof fn law_gen_name_distinct(
    s1: Seq<Seq<char>>,
    s2: Seq<Seq<char>>,
    names: Seq<(Seq<char>, u32)>,
)
    requires
        names_wf(names),
        base_name(s1) == base_name(s2),
        gen_name(s1, names) is Ok,
        gen_name(s2, gen_name(s1, names).unwrap().1) is Ok,
    ensures
        gen_name(s1, names).unwrap().0 != gen_name(s2, gen_name(s1, names).unwrap().1).unwrap().0,
{
    let base = base_name(s1);
    let c1 = count_of(names, base);
    law_gen_name_counts(s1, names);
    let after = gen_name(s1, names).unwrap().1;
    let c2 = count_of(after, base);
    let n1 = gen_name(s1, names).unwrap().0;
    let n2 = gen_name(s2, after).unwrap().0;
    assert(n1 == base + decimal((c1 + 1) as nat));
    assert(n2 == base + decimal((c2 + 1) as nat));
    if n1 == n2 {
        assert(n1.subrange(base.len() as int, n1.len() as int) =~= decimal((c1 + 1) as nat));
        assert(n2.subrange(base.len() as int, n2.len() as int) =~= decimal((c2 + 1) as nat));
        lemma_decimal_injective((c1 + 1) as nat, (c2 + 1) as nat);
    }
}

} // verus!
