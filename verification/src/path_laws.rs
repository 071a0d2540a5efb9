//! What holds of paths.

use vstd::prelude::*;

use crate::path::{
    collected, components, file_name_of, head, head_len, is_below, is_dotted, is_parent,
    is_rooted, joined, last_start, lemma_last_start, lemma_last_start_unique, lemma_spans, names,
    parent_of, placed, significant, spans, spelled, stripped, unrooted, with_root, ComponentView,
    DOT, SLASH,
};

verus! {

/// Spans, moved by `by` places.
pub open spec fn moved(found: Seq<(int, int)>, by: int) -> Seq<(int, int)> {
    Seq::new(found.len(), |i: int| (found[i].0 + by, found[i].1 + by))
}

/// A slash at the end adds no segment.
proof fn lemma_spans_closed(a: Seq<u8>)
    requires
        a.len() > 0,
        a.last() == SLASH,
    ensures
        spans(a) == spans(a.drop_last()),
{
    assert(last_start(a) == a.len());
    assert(a.take(a.len() - 1) =~= a.drop_last());
    assert(a.skip(a.len() as int).len() == 0);
}

/// The spans of what follows a slash, or nothing, are those of the parts.
proof fn lemma_spans_append(a: Seq<u8>, b: Seq<u8>)
    requires
        a.len() == 0 || a.last() == SLASH,
    ensures
        spans(a + b) == spans(a) + moved(spans(b), a.len() as int),
    decreases b.len(),
{
    let s = a + b;
    let k = last_start(b);
    lemma_last_start(b);
    if a.len() > 0 {
        lemma_spans_closed(a);
    } else {
        assert(s =~= b);
        assert(spans(a) =~= seq![]) by {
            assert(a.skip(0).len() == 0);
        }
        assert(moved(spans(b), 0) =~= spans(b));
        assert(spans(a) + moved(spans(b), 0) =~= spans(b));
        return;
    }
    assert(last_start(s) == a.len() + k) by {
        lemma_last_start_unique(s, a.len() + k);
    }
    assert(s.skip(a.len() + k) =~= b.skip(k));
    if k == 0 {
        assert(s.take(a.len() - 1) =~= a.drop_last());
    } else {
        assert(s.take(a.len() + k - 1) =~= a + b.take(k - 1));
        lemma_spans_append(a, b.take(k - 1));
    }
    assert(spans(s) =~= spans(a) + moved(spans(b), a.len() as int));
}

/// The names of what follows a slash, or nothing, are those of the parts.
proof fn lemma_names_append(a: Seq<u8>, b: Seq<u8>)
    requires
        a.len() == 0 || a.last() == SLASH,
    ensures
        names(a + b) == names(a) + names(b),
{
    lemma_spans_append(a, b);
    lemma_spans(a);
    lemma_spans(b);
    let s = a + b;
    assert(names(s).len() == names(a).len() + names(b).len());
    assert forall|i: int| 0 <= i < names(s).len() implies names(s)[i] == (names(a) + names(b))[i] by {
        if i < spans(a).len() {
            assert(spans(s)[i] == spans(a)[i]);
            assert(s.subrange(spans(a)[i].0, spans(a)[i].1) =~= a.subrange(
                spans(a)[i].0,
                spans(a)[i].1,
            ));
        } else {
            let j = i - spans(a).len();
            assert(spans(s)[i] == moved(spans(b), a.len() as int)[j]);
            assert(spans(b)[j].1 <= b.len());
            assert(s.subrange(spans(s)[i].0, spans(s)[i].1) =~= b.subrange(
                spans(b)[j].0,
                spans(b)[j].1,
            ));
        }
    }
    assert(names(s) =~= names(a) + names(b));
}

/// A slash at the end adds no name.
proof fn lemma_names_closed(a: Seq<u8>)
    ensures
        names(a.push(SLASH)) == names(a),
{
    let s = a.push(SLASH);
    assert(s.drop_last() =~= a);
    lemma_spans_closed(s);
    lemma_spans(a);
    assert forall|i: int| 0 <= i < names(a).len() implies names(s)[i] == names(a)[i] by {
        assert(spans(a)[i].1 <= a.len());
        assert(s.subrange(spans(a)[i].0, spans(a)[i].1) =~= a.subrange(
            spans(a)[i].0,
            spans(a)[i].1,
        ));
    }
    assert(names(s) =~= names(a));
}

/// The components of a path that is seen from another: those of the other,
/// and then its names.
pub proof fn joined_components(a: Seq<u8>, b: Seq<u8>)
    requires
        !is_rooted(b),
        a.len() > 0 || !is_dotted(b),
    ensures
        components(joined(a, b)) == components(a) + names(b),
        names(joined(a, b)) == names(a) + names(b),
        head(joined(a, b)) == head(a),
{
    if a.len() == 0 || a.last() == SLASH {
        lemma_names_append(a, b);
    } else {
        let c = a.push(SLASH);
        assert(a + seq![SLASH] =~= c);
        lemma_names_append(c, b);
        lemma_names_closed(a);
    }
    assert(components(joined(a, b)) =~= components(a) + names(b));
}

/// Whether a component is one that a significant segment spells.
pub open spec fn is_name(component: ComponentView) -> bool {
    match component {
        ComponentView::RootDir => false,
        ComponentView::CurDir => false,
        ComponentView::ParentDir => true,
        ComponentView::Normal(name) => significant(name) && !is_parent(name) && forall|k: int|
            0 <= k < name.len() ==> name[k] != SLASH,
    }
}

/// Names are what significant segments spell.
pub proof fn lemma_names(s: Seq<u8>)
    ensures
        forall|i: int| 0 <= i < names(s).len() ==> is_name(#[trigger] names(s)[i]),
{
    lemma_spans(s);
    assert forall|i: int| 0 <= i < names(s).len() implies is_name(#[trigger] names(s)[i]) by {
        let span = spans(s)[i];
        let segment = s.subrange(span.0, span.1);
        assert(significant(segment));
        assert forall|k: int| 0 <= k < segment.len() implies segment[k] != SLASH by {
            assert(s[span.0 + k] != SLASH);
        }
    }
}

/// A name that is spelled out is the only name of its spelling.
proof fn lemma_spelled(component: ComponentView)
    requires
        is_name(component),
    ensures
        names(spelled(component)) == seq![component],
        head(spelled(component)) == Seq::<ComponentView>::empty(),
{
    let s = spelled(component);
    assert forall|k: int| 0 <= k < s.len() implies s[k] != SLASH by {}
    lemma_last_start_unique(s, 0);
    assert(s.skip(0) =~= s);
    assert(significant(s)) by {
        if component is ParentDir {
            assert(s.len() == 2);
        }
    }
    assert(s.subrange(0, s.len() as int) =~= s);
    assert(names(s) =~= seq![component]);
    if s.len() == 1 && s[0] == DOT {
        assert(s =~= seq![DOT]);
    }
}

/// A path that visits names one after the other has just these components.
pub proof fn collected_components(parts: Seq<ComponentView>)
    requires
        forall|i: int| 0 <= i < parts.len() ==> is_name(#[trigger] parts[i]),
    ensures
        components(collected(parts)) == parts,
        names(collected(parts)) == parts,
        head(collected(parts)) == Seq::<ComponentView>::empty(),
        !is_rooted(collected(parts)),
        !is_dotted(collected(parts)),
    decreases parts.len(),
{
    let s = collected(parts);
    if parts.len() == 0 {
        assert(s.skip(0).len() == 0);
        assert(names(s) =~= parts);
    } else {
        let before = parts.drop_last();
        assert forall|i: int| 0 <= i < before.len() implies is_name(#[trigger] before[i]) by {
            assert(before[i] == parts[i]);
        }
        collected_components(before);
        lemma_spelled(parts.last());
        let last = spelled(parts.last());
        assert(!is_rooted(last)) by {
            if is_rooted(last) {
                assert(head(last)[0] == ComponentView::RootDir);
                assert(head(last).len() == 1);
            }
        }
        assert(!is_dotted(last)) by {
            if is_dotted(last) {
                assert(head(last).len() == 1);
            }
        }
        joined_components(collected(before), last);
        assert(names(s) =~= parts);
        assert(before + seq![parts.last()] =~= parts);
        assert(head(s).len() == 0);
    }
    assert(components(s) =~= parts);
}

/// Where a path lies below a root that stands for the root directory: the
/// components of the root come first, and then the names of the path.
pub proof fn placed_components(root: Seq<u8>, s: Seq<u8>)
    requires
        is_rooted(s),
    ensures
        components(placed(root, s)) == components(root) + names(s),
{
    lemma_names(s);
    let parts = components(s).skip(1);
    assert(parts =~= names(s));
    collected_components(parts);
    joined_components(root, unrooted(s));
}

/// Up to the end of one of its segments, a path has the spans up to there.
proof fn lemma_spans_take(s: Seq<u8>, i: int)
    requires
        0 <= i < spans(s).len(),
    ensures
        spans(s.take(spans(s)[i].1)) == spans(s).take(i + 1),
    decreases s.len(),
{
    lemma_spans(s);
    lemma_last_start(s);
    let start = last_start(s);
    let e = spans(s)[i].1;
    if significant(s.skip(start)) && i == spans(s).len() - 1 {
        assert(s.take(e) =~= s);
        assert(spans(s).take(i + 1) =~= spans(s));
    } else {
        let t = s.take(start - 1);
        lemma_spans_take(t, i);
        lemma_spans(t);
        assert(spans(t)[i] == spans(s)[i]);
        assert(t.take(e) =~= s.take(e));
        assert(spans(t).take(i + 1) =~= spans(s).take(i + 1));
    }
}

/// Up to the end of one of its segments, a path has the components up to
/// there.
proof fn lemma_components_take(s: Seq<u8>, i: int)
    requires
        0 <= i < spans(s).len(),
    ensures
        names(s.take(spans(s)[i].1)) == names(s).take(i + 1),
        head(s.take(spans(s)[i].1)) == head(s),
{
    lemma_spans_take(s, i);
    lemma_spans(s);
    let e = spans(s)[i].1;
    let t = s.take(e);
    assert forall|k: int| 0 <= k <= i implies names(t)[k] == names(s)[k] by {
        assert(spans(t)[k] == spans(s)[k]);
        if k < i {
            assert(spans(s)[k].1 < spans(s)[i].0);
        }
        assert(t.subrange(spans(s)[k].0, spans(s)[k].1) =~= s.subrange(
            spans(s)[k].0,
            spans(s)[k].1,
        ));
    }
    assert(names(t) =~= names(s).take(i + 1));
    assert(e > 0);
    if is_dotted(t) && t.len() == 1 {
        let b = spans(s)[i].0;
        assert(b == 0);
        assert(s.subrange(b, e) =~= seq![DOT]);
    }
    if is_dotted(s) && e == 1 {
        let b = spans(s)[i].0;
        assert(s.subrange(b, e) =~= seq![DOT]);
    }
}

/// The head of a path, alone, has no names.
proof fn lemma_head_alone(s: Seq<u8>)
    ensures
        components(s.take(head_len(s))) == head(s),
        names(s.take(head_len(s))) == Seq::<ComponentView>::empty(),
{
    let t = s.take(head_len(s));
    if t.len() == 0 {
        assert(t.skip(0).len() == 0);
    } else if is_rooted(s) {
        assert(t.last() == SLASH);
        assert(t.skip(1).len() == 0);
        assert(t.take(0).skip(0).len() == 0);
        assert(last_start(t.take(0)) == 0);
        assert(last_start(t) == 1);
        assert(spans(t.take(0)) =~= seq![]);
    } else {
        assert(t =~= seq![DOT]);
        lemma_last_start_unique(t, 0);
        assert(t.skip(0) =~= seq![DOT]);
        assert(!significant(t.skip(0)));
    }
    assert(spans(t) =~= seq![]);
    assert(names(t) =~= seq![]);
    assert(components(t) =~= head(s));
}

/// The parent of a path has all its components but the last. Only a path
/// without components and the root have none.
pub proof fn parent_components(s: Seq<u8>)
    ensures
        parent_of(s) is None <==> components(s).len() == 0 || components(s) == seq![
            ComponentView::RootDir,
        ],
        parent_of(s) is Some ==> {
            &&& components(parent_of(s)->0) == components(s).drop_last()
            &&& names(s).len() > 0 ==> names(parent_of(s)->0) == names(s).drop_last()
            &&& names(s).len() > 0 ==> head(parent_of(s)->0) == head(s)
        },
{
    let found = spans(s);
    if found.len() >= 2 {
        let i = found.len() - 2;
        lemma_components_take(s, i);
        assert(names(s).take(i + 1) =~= names(s).drop_last());
        assert(components(s).drop_last() =~= head(s) + names(s).drop_last());
        assert(components(s).len() >= 2);
    } else if found.len() == 1 {
        lemma_head_alone(s);
        assert(components(s).drop_last() =~= head(s));
        assert(names(s).drop_last() =~= seq![]);
        lemma_names(s);
        assert(is_name(names(s)[0]));
        assert(components(s).last() == names(s)[0]);
        assert(components(s) != seq![ComponentView::RootDir]);
        let p = s.take(head_len(s));
        assert(components(p) =~= head(p) + names(p));
        assert(head(p) =~= components(p));
    } else {
        assert(names(s) =~= seq![]);
        assert(components(s) =~= head(s));
        if is_dotted(s) {
            assert(components(s)[0] == ComponentView::CurDir);
            let e = Seq::<u8>::empty();
            assert(e.skip(0).len() == 0);
            assert(names(e) =~= seq![]);
            assert(components(e) =~= components(s).drop_last());
        } else if is_rooted(s) {
            assert(components(s) =~= seq![ComponentView::RootDir]);
        }
    }
}

/// What is left of a path behind another has the components that are left,
/// and none where the path is not below the other.
pub proof fn stripped_components(s: Seq<u8>, base: Seq<u8>)
    ensures
        stripped(s, base) is Some <==> is_below(s, base),
        is_below(s, base) ==> components(stripped(s, base)->0) == components(s).skip(
            components(base).len() as int,
        ),
{
    if is_below(s, base) {
        let found = spans(s);
        let gone = components(base).len() as int;
        let first = gone - head(s).len();
        lemma_spans(s);
        if gone == 0 {
            if found.len() == 0 {
                lemma_head_alone(s);
                assert(names(s) =~= seq![]);
            } else {
                lemma_components_take(s, found.len() - 1);
                assert(names(s).take(found.len() as int) =~= names(s));
            }
            assert(components(s).skip(0) =~= components(s));
            assert(components(stripped(s, base)->0) =~= components(s));
        } else if first >= found.len() {
            let e = Seq::<u8>::empty();
            assert(e.skip(0).len() == 0);
            assert(names(e) =~= seq![]);
            assert(components(e) =~= components(s).skip(gone));
        } else {
            lemma_stripped_rest(s, first);
            assert(components(s).skip(gone) =~= names(s).skip(first));
        }
    }
}

/// From the start of one of its segments to the end of its last, a path has
/// the names from there on, and nothing else.
proof fn lemma_stripped_rest(s: Seq<u8>, first: int)
    requires
        0 <= first < spans(s).len(),
    ensures
        components(s.subrange(spans(s)[first].0, spans(s).last().1)) == names(s).skip(first),
{
    let found = spans(s);
    let b = found[first].0;
    let e = found.last().1;
    lemma_spans(s);
    lemma_components_take(s, found.len() - 1);
    lemma_spans_take(s, found.len() - 1);
    let whole = s.take(e);
    assert(found.take(found.len() as int) =~= found);
    assert(names(s).take(found.len() as int) =~= names(s));
    if first < found.len() - 1 {
        assert(found[first].1 < found[found.len() - 1].0);
    }
    let front = s.take(b);
    let rest = s.subrange(b, e);
    assert(whole =~= front + rest);
    if b > 0 {
        assert(front.last() == s[b - 1]);
    }
    lemma_spans_append(front, rest);
    lemma_names_append(front, rest);
    lemma_spans(front);
    lemma_spans(rest);
    let m = spans(front).len() as int;
    // The spans of the front are those that end before `b`.
    assert(m == first) by {
        if m > first {
            assert(found[first] == spans(front)[first]);
            assert(spans(front)[first].1 <= b);
        } else if m < first {
            assert(found[m] == moved(spans(rest), b)[0]);
            assert(spans(rest)[0].0 >= 0);
            assert(found[m].0 < found[m].1 < found[first].0);
        }
    }
    assert(names(s).skip(first) =~= names(rest));
    assert(!is_rooted(rest)) by {
        assert(rest[0] == s[b]);
    }
    assert(!is_dotted(rest)) by {
        let seg = s.subrange(found[first].0, found[first].1);
        assert(significant(seg));
        if is_dotted(rest) {
            assert(s[b] == DOT);
            if found[first].1 > b + 1 {
                assert(s[b + 1] != SLASH);
                assert(rest.len() > 1);
                assert(rest[1] == s[b + 1]);
            } else {
                assert(seg =~= seq![DOT]);
            }
        }
    }
    assert(components(rest) =~= names(rest));
}

/// A path that is made to begin at the root does, and keeps its names.
pub proof fn with_root_components(s: Seq<u8>)
    ensures
        is_rooted(with_root(s)),
        names(with_root(s)) == names(s),
        components(with_root(s)) == seq![ComponentView::RootDir] + names(s),
{
    if !is_rooted(s) {
        let root = seq![SLASH];
        joined_components(root, s);
        assert(root.take(head_len(root)) =~= root);
        lemma_head_alone(root);
        assert(names(root) + names(s) =~= names(s));
    }
}

/// Behind its first component a path has only names.
pub proof fn lemma_tail(s: Seq<u8>, from: int)
    requires
        from > 0,
    ensures
        forall|i: int| from <= i < components(s).len() ==> is_name(#[trigger] components(s)[i]),
{
    lemma_names(s);
    assert forall|i: int| from <= i < components(s).len() implies is_name(
        #[trigger] components(s)[i],
    ) by {
        assert(components(s)[i] == names(s)[i - head(s).len()]);
    }
}

/// The name of a path in its directory is a name, and nothing else.
pub proof fn lemma_file_name(s: Seq<u8>)
    requires
        file_name_of(s) is Some,
    ensures
        !is_rooted(file_name_of(s)->0),
        !is_dotted(file_name_of(s)->0),
        names(file_name_of(s)->0) == seq![ComponentView::Normal(file_name_of(s)->0)],
{
    lemma_names(s);
    let name = file_name_of(s)->0;
    assert(components(s).last() == ComponentView::Normal(name));
    assert(names(s).len() > 0);
    assert(names(s).last() == ComponentView::Normal(name));
    assert(is_name(names(s)[names(s).len() - 1]));
    lemma_spelled(ComponentView::Normal(name));
    assert(!is_dotted(name)) by {
        if is_dotted(name) {
            assert(head(name).len() == 1);
        }
    }
}

/// The name of a path in its directory, seen from its directory, leads back
/// to where the path does.
pub proof fn parent_and_file_name(s: Seq<u8>)
    requires
        file_name_of(s) is Some,
    ensures
        parent_of(s) is Some,
        components(joined(parent_of(s)->0, file_name_of(s)->0)) == components(s),
{
    parent_components(s);
    lemma_file_name(s);
    let name = file_name_of(s)->0;
    assert(components(s).last() == ComponentView::Normal(name));
    joined_components(parent_of(s)->0, name);
    assert(components(s).drop_last() + seq![ComponentView::Normal(name)] =~= components(s));
}

/// Whether `w` is a segment: it holds no slash.
pub open spec fn is_segment(w: Seq<u8>) -> bool {
    forall|k: int| 0 <= k < w.len() ==> w[k] != 0x2f
}

/// A segment names one thing: the directory above where it is two dots, and
/// else what bears its name. An empty one and a dot name nothing.
pub proof fn segments_name_one_thing(w: Seq<u8>)
    requires
        is_segment(w),
    ensures
        w.len() == 0 || w == seq![0x2eu8] ==> names(w) == Seq::<ComponentView>::empty(),
        w == seq![0x2eu8, 0x2eu8] ==> names(w) == seq![ComponentView::ParentDir],
        w.len() > 0 && w != seq![0x2eu8] && w != seq![0x2eu8, 0x2eu8] ==> names(w) == seq![
            ComponentView::Normal(w),
        ],
{
    lemma_last_start_unique(w, 0);
    assert(w.skip(0) =~= w);
    assert(w.subrange(0, w.len() as int) =~= w);
    if w.len() == 1 && w[0] == 0x2e {
        assert(w =~= seq![0x2eu8]);
    }
    if is_parent(w) {
        assert(w =~= seq![0x2eu8, 0x2eu8]);
    }
    if significant(w) {
        assert(spans(w) =~= seq![(0, w.len() as int)]);
        if is_parent(w) {
            assert(names(w) =~= seq![ComponentView::ParentDir]);
        } else {
            assert(names(w) =~= seq![ComponentView::Normal(w)]);
        }
    } else {
        assert(spans(w) =~= seq![]);
        assert(names(w) =~= seq![]);
    }
}

/// A slash parts what is named before it from what is named behind it.
pub proof fn slashes_part_names(a: Seq<u8>, b: Seq<u8>)
    ensures
        names(a + seq![0x2fu8] + b) == names(a) + names(b),
{
    let closed = a.push(SLASH);
    assert(a + seq![0x2fu8] =~= closed);
    lemma_names_append(closed, b);
    lemma_names_closed(a);
}

/// Only the first segment of a path can tell where the path begins: at the
/// root where it is empty and a slash follows, and in the current directory
/// where it is a dot.
pub proof fn first_segments_tell_the_beginning(w: Seq<u8>, b: Seq<u8>)
    requires
        is_segment(w),
    ensures
        w.len() == 0 ==> {
            &&& components(w) == Seq::<ComponentView>::empty()
            &&& components(w + seq![0x2fu8] + b) == seq![ComponentView::RootDir] + names(b)
        },
        w == seq![0x2eu8] ==> {
            &&& components(w) == seq![ComponentView::CurDir]
            &&& components(w + seq![0x2fu8] + b) == seq![ComponentView::CurDir] + names(b)
        },
        w.len() > 0 && w != seq![0x2eu8] ==> {
            &&& components(w) == names(w)
            &&& components(w + seq![0x2fu8] + b) == names(w) + names(b)
        },
{
    let s = w + seq![0x2fu8] + b;
    slashes_part_names(w, b);
    segments_name_one_thing(w);
    assert(s[w.len() as int] == 0x2f);
    if w.len() > 0 {
        assert(s[0] == w[0]);
        if w.len() == 1 && w[0] == 0x2e {
            assert(w =~= seq![0x2eu8]);
        }
        if w.len() > 1 {
            assert(s[1] == w[1]);
        }
    }
    assert(Seq::<ComponentView>::empty() + names(b) =~= names(b));
    assert(components(w) =~= head(w) + names(w));
    assert(components(s) =~= head(s) + (names(w) + names(b)));
    if w.len() == 0 {
        assert(components(w) =~= Seq::<ComponentView>::empty());
        assert(components(s) =~= seq![ComponentView::RootDir] + names(b));
    } else if w == seq![0x2eu8] {
        assert(components(w) =~= seq![ComponentView::CurDir]);
        assert(components(s) =~= seq![ComponentView::CurDir] + names(b));
    } else {
        assert(components(w) =~= names(w));
        assert(components(s) =~= names(w) + names(b));
    }
}

/// A path seen from another keeps every byte of both, with one slash between
/// them where one is needed. A path that begins at the root is seen from
/// everywhere alike.
pub proof fn joined_bytes(a: Seq<u8>, b: Seq<u8>)
    ensures
        b.len() > 0 && b[0] == 0x2f ==> joined(a, b) == b,
        !(b.len() > 0 && b[0] == 0x2f) ==> {
            let s = joined(a, b);
            &&& a.is_prefix_of(s)
            &&& b.is_suffix_of(s)
            &&& a.len() == 0 || a.last() == 0x2f ==> s.len() == a.len() + b.len()
            &&& a.len() > 0 && a.last() != 0x2f ==> {
                &&& s.len() == a.len() + 1 + b.len()
                &&& s[a.len() as int] == 0x2f
            }
        },
{
    let s = joined(a, b);
    if !(b.len() > 0 && b[0] == 0x2f) {
        assert(a =~= s.take(a.len() as int));
        assert(b =~= s.skip(s.len() - b.len()));
    }
}

/// A path lies below another exactly if a row of further components leads
/// from the other to it, and then at most one does.
pub proof fn below_is_further_on(s: Seq<u8>, base: Seq<u8>, rest: Seq<ComponentView>)
    ensures
        components(s) == components(base) + rest ==> is_below(s, base) && rest == components(
            s,
        ).skip(components(base).len() as int),
        is_below(s, base) ==> components(s) == components(base) + components(s).skip(
            components(base).len() as int,
        ),
{
    let n = components(base).len() as int;
    if components(s) == components(base) + rest {
        assert(components(s).take(n) =~= components(base));
        assert(components(s).skip(n) =~= rest);
    }
    if is_below(s, base) {
        assert(components(base) =~= components(s).take(n));
        assert(components(s) =~= components(base) + components(s).skip(n));
    }
}

/// Names one after the other are spelled with one slash between two of them,
/// and none before or behind.
pub proof fn collected_bytes(parts: Seq<ComponentView>, last: ComponentView)
    requires
        forall|i: int| 0 <= i < parts.len() ==> is_name(#[trigger] parts[i]),
        is_name(last),
    ensures
        collected(Seq::<ComponentView>::empty()) == Seq::<u8>::empty(),
        ({
            let s = collected(parts.push(last));
            let word = match last {
                ComponentView::Normal(name) => name,
                _ => seq![0x2eu8, 0x2eu8],
            };
            &&& parts.len() == 0 ==> s == word
            &&& parts.len() > 0 ==> s == collected(parts) + seq![0x2fu8] + word
            &&& s.len() > 0 && s.last() != 0x2f && s[0] != 0x2f
        }),
    decreases parts.len(),
{
    let all = parts.push(last);
    assert(all.drop_last() =~= parts);
    let word = spelled(last);
    assert(word.len() > 0);
    assert(word[0] != 0x2f);
    assert(word.last() != 0x2f);
    assert(is_name(last) && !(last is Normal) ==> last is ParentDir);
    if parts.len() > 0 {
        let before = parts.drop_last();
        assert(before.push(parts.last()) =~= parts);
        assert forall|i: int| 0 <= i < before.len() implies is_name(#[trigger] before[i]) by {
            assert(before[i] == parts[i]);
        }
        assert(is_name(parts[parts.len() - 1]));
        collected_bytes(before, parts.last());
    } else {
        assert(collected(parts) + word =~= word);
    }
}

/// The names of a path that spells names one after the other fill it from the
/// first byte to the last.
proof fn lemma_collected_spans(parts: Seq<ComponentView>)
    requires
        parts.len() > 0,
        forall|i: int| 0 <= i < parts.len() ==> is_name(#[trigger] parts[i]),
    ensures
        spans(collected(parts)).len() == parts.len(),
        spans(collected(parts))[0].0 == 0,
        spans(collected(parts)).last().1 == collected(parts).len(),
    decreases parts.len(),
{
    let s = collected(parts);
    collected_components(parts);
    assert(names(s).len() == spans(s).len());
    let before = parts.drop_last();
    let last = parts.last();
    assert(is_name(parts[parts.len() - 1]));
    assert forall|i: int| 0 <= i < before.len() implies is_name(#[trigger] before[i]) by {
        assert(before[i] == parts[i]);
    }
    collected_bytes(before, last);
    assert(before.push(last) =~= parts);
    let word = spelled(last);
    if before.len() == 0 {
        assert forall|k: int| 0 <= k < s.len() implies s[k] != SLASH by {}
        lemma_last_start_unique(s, 0);
        assert(s.skip(0) =~= s);
        lemma_spans(s);
        assert(spans(s) =~= seq![(0, s.len() as int)]);
    } else {
        lemma_collected_spans(before);
        let front = collected(before).push(SLASH);
        assert(s =~= front + word);
        lemma_spans_append(front, word);
        assert(front.drop_last() =~= collected(before));
        lemma_spans_closed(front);
        assert forall|k: int| 0 <= k < word.len() implies word[k] != SLASH by {}
        lemma_last_start_unique(word, 0);
        assert(word.skip(0) =~= word);
        lemma_spans(word);
        assert(significant(word));
        assert(spans(word) =~= seq![(0, word.len() as int)]);
    }
}

/// What is left behind a directory of a path that leads from it through names
/// is just these names.
pub proof fn stripping_undoes_joining(base: Seq<u8>, parts: Seq<ComponentView>)
    requires
        forall|i: int| 0 <= i < parts.len() ==> is_name(#[trigger] parts[i]),
    ensures
        stripped(joined(base, collected(parts)), base) == Some(collected(parts)),
{
    let rel = collected(parts);
    let s = joined(base, rel);
    collected_components(parts);
    joined_components(base, rel);
    let gone = components(base).len() as int;
    assert(components(base) =~= components(s).take(gone));
    assert(head(s) == head(base));
    assert(is_below(s, base));
    assert(spans(base).len() == names(base).len());
    assert(spans(s).len() == names(s).len());
    if parts.len() == 0 {
        assert(rel =~= seq![]);
        assert(names(s) =~= names(base));
        if gone == 0 {
            assert(head(s).len() == 0);
            assert(s.take(0) =~= rel);
        }
    } else {
        lemma_collected_spans(parts);
        let front = if base.len() == 0 || base.last() == SLASH {
            base
        } else {
            base.push(SLASH)
        };
        assert(s =~= front + rel);
        lemma_spans_append(front, rel);
        if front != base {
            assert(front.drop_last() =~= base);
            lemma_spans_closed(front);
        }
        let found = spans(s);
        let first = gone - head(s).len();
        assert(first == spans(base).len());
        assert(found[first] == moved(spans(rel), front.len() as int)[0]);
        assert(found.last() == moved(spans(rel), front.len() as int).last());
        assert(s.subrange(front.len() as int, s.len() as int) =~= rel);
        if gone == 0 {
            assert(base.len() == 0) by {
                if base.len() > 0 {
                    lemma_some_component(base);
                }
            }
            assert(s.take(s.len() as int) =~= rel);
        }
    }
}

/// A path that is not empty leads somewhere, if only to where it begins.
proof fn lemma_some_component(s: Seq<u8>)
    requires
        s.len() > 0,
    ensures
        components(s).len() > 0,
    decreases s.len(),
{
    if !is_rooted(s) && !is_dotted(s) {
        lemma_some_name(s);
    }
}

/// A path whose first segment is neither empty nor a dot has a name.
proof fn lemma_some_name(s: Seq<u8>)
    requires
        s.len() > 0,
        !is_rooted(s),
        !is_dotted(s),
    ensures
        names(s).len() > 0,
    decreases s.len(),
{
    lemma_last_start(s);
    let start = last_start(s);
    if start == 0 {
        assert(s.skip(0) =~= s);
        assert(significant(s));
    } else {
        let t = s.take(start - 1);
        assert(start > 1);
        assert(t[0] == s[0]);
        if t.len() > 1 {
            assert(t[1] == s[1]);
        } else {
            assert(s[1] == SLASH);
        }
        lemma_some_name(t);
        assert(spans(t).len() > 0);
    }
}

/// The parent of a path is the beginning of it. It ends in a slash only where
/// it is the root, and never in a dot that names nothing but follows a slash.
pub proof fn parents_begin_their_paths(s: Seq<u8>)
    requires
        parent_of(s) is Some,
    ensures
        parent_of(s)->0.is_prefix_of(s),
        parent_of(s)->0.len() > 0 && parent_of(s)->0.last() == 0x2f ==> parent_of(s)->0 == seq![
            0x2fu8,
        ],
        !seq![0x2fu8, 0x2eu8].is_suffix_of(parent_of(s)->0),
{
    let t = parent_of(s)->0;
    lemma_spans(s);
    if seq![0x2fu8, 0x2eu8].is_suffix_of(t) {
        let found = spans(s);
        let end = t.len() as int;
        assert(t.skip(end - 2)[0] == 0x2f && t.skip(end - 2)[1] == 0x2e);
        assert(s[end - 2] == 0x2f && s[end - 1] == 0x2e);
        assert(found.len() >= 2);
        let span = found[found.len() - 2];
        assert(span.1 == end);
        assert(span.0 == end - 1) by {
            if span.0 < end - 1 {
                assert(s[end - 2] != SLASH);
            }
        }
        assert(s.subrange(span.0, span.1)[0] == DOT);
    }
    assert(t =~= s.take(t.len() as int));
    if t.len() > 0 {
        assert(t.last() == s[t.len() - 1]);
        let found = spans(s);
        if found.len() >= 2 {
            let span = found[found.len() - 2];
            assert(s[span.1 - 1] != SLASH);
        } else if t.last() == 0x2f {
            assert(t =~= seq![0x2fu8]);
        }
    }
}

/// The name of a path in its directory is its last component, and no other
/// path has one.
pub proof fn file_names_come_last(s: Seq<u8>, name: Seq<u8>)
    ensures
        file_name_of(s) == Some(name) <==> components(s).len() > 0 && components(s).last()
            == ComponentView::Normal(name),
{
}

/// A path that is made to begin at the root only gains a slash in front, where
/// it has none.
pub proof fn with_root_bytes(s: Seq<u8>)
    ensures
        s.len() > 0 && s[0] == 0x2f ==> with_root(s) == s,
        !(s.len() > 0 && s[0] == 0x2f) ==> with_root(s) == seq![0x2fu8] + s,
{
}

/// Where a path lies below a root is spelled as the root and then the names of
/// the path; a path that does not begin at the root keeps its spelling.
pub proof fn placed_bytes(root: Seq<u8>, s: Seq<u8>)
    ensures
        s.len() > 0 && s[0] == 0x2f ==> placed(root, s) == joined(root, collected(names(s))),
        !(s.len() > 0 && s[0] == 0x2f) ==> placed(root, s) == joined(root, s),
{
    assert(is_rooted(s) ==> components(s).skip(1) =~= names(s));
}

/// A path that loses its root keeps its names, and one without a root stays
/// as it is.
pub proof fn unrooted_bytes(s: Seq<u8>)
    ensures
        s.len() > 0 && s[0] == 0x2f ==> unrooted(s) == collected(names(s)),
        !(s.len() > 0 && s[0] == 0x2f) ==> unrooted(s) == s,
{
    assert(is_rooted(s) ==> components(s).skip(1) =~= names(s));
}

/// What is left of a path behind another is a part of its bytes, which neither
/// begins nor ends with a slash.
pub proof fn stripped_bytes(s: Seq<u8>, base: Seq<u8>)
    requires
        is_below(s, base),
        components(base).len() > 0,
    ensures
        ({
            let rest = stripped(s, base)->0;
            &&& exists|from: int, to: int|
                0 <= from <= to <= s.len() && #[trigger] s.subrange(from, to) == rest
            &&& rest.len() > 0 ==> rest[0] != 0x2f && rest.last() != 0x2f
        }),
{
    let rest = stripped(s, base)->0;
    let found = spans(s);
    let first = components(base).len() - head(s).len();
    lemma_spans(s);
    assert(components(base) =~= components(s).take(components(base).len() as int));
    if first < found.len() {
        assert(first >= 0);
        let from = found[first].0;
        if first < found.len() - 1 {
            assert(found[first].1 < found[found.len() - 1].0);
        }
        assert(rest == s.subrange(from, found.last().1));
        assert(s[found[found.len() - 1].1 - 1] != SLASH);
        assert(s[found[first].0] != SLASH);
    } else {
        assert(s.subrange(0, 0) =~= rest);
    }
}

} // verus!
