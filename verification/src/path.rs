//! File paths as the bytes that name them, read the way Unix reads them.
//!
//! A path is a row of segments between slashes. Empty segments and `.` carry
//! no meaning, except that a leading slash marks the root and a leading `.`
//! the current directory.

use vstd::prelude::*;

verus! {

pub const SLASH: u8 = 0x2f;

pub const DOT: u8 = 0x2e;

/// A path: its bytes, as the file system takes them.
pub struct FilePath {
    bytes: Vec<u8>,
}

impl View for FilePath {
    type V = Seq<u8>;

    closed spec fn view(&self) -> Seq<u8> {
        self.bytes@
    }
}

/// One step of a path.
pub enum Component {
    RootDir,
    CurDir,
    ParentDir,
    Normal(Vec<u8>),
}

/// What a [`Component`] stands for.
pub enum ComponentView {
    RootDir,
    CurDir,
    ParentDir,
    Normal(Seq<u8>),
}

impl View for Component {
    type V = ComponentView;

    open spec fn view(&self) -> ComponentView {
        match self {
            Component::RootDir => ComponentView::RootDir,
            Component::CurDir => ComponentView::CurDir,
            Component::ParentDir => ComponentView::ParentDir,
            Component::Normal(name) => ComponentView::Normal(name@),
        }
    }
}

/// What a row of components stands for.
pub open spec fn component_views(components: Seq<Component>) -> Seq<ComponentView> {
    Seq::new(components.len(), |i: int| components[i]@)
}

/// Where the last segment of `s` begins: behind its last slash, or at 0.
pub open spec fn last_start(s: Seq<u8>) -> int
    decreases s.len(),
{
    if s.len() == 0 {
        0
    } else if s.last() == SLASH {
        s.len() as int
    } else {
        last_start(s.drop_last())
    }
}

/// Whether a segment names something: it is neither empty nor `.`.
pub open spec fn significant(segment: Seq<u8>) -> bool {
    segment.len() > 0 && !(segment.len() == 1 && segment[0] == DOT)
}

/// Where the significant segments of `s` begin and end, in their order.
pub open spec fn spans(s: Seq<u8>) -> Seq<(int, int)>
    decreases s.len(),
    via spans_decreases
{
    let start = last_start(s);
    let before = if start == 0 {
        Seq::empty()
    } else {
        spans(s.take(start - 1))
    };
    if significant(s.skip(start)) {
        before.push((start, s.len() as int))
    } else {
        before
    }
}

#[via_fn]
proof fn spans_decreases(s: Seq<u8>) {
    lemma_last_start(s);
}

/// Whether a segment is `..`.
pub open spec fn is_parent(segment: Seq<u8>) -> bool {
    segment.len() == 2 && segment[0] == DOT && segment[1] == DOT
}

/// The component that a significant segment spells.
pub open spec fn named(segment: Seq<u8>) -> ComponentView {
    if is_parent(segment) {
        ComponentView::ParentDir
    } else {
        ComponentView::Normal(segment)
    }
}

/// The components that the significant segments of `s` spell.
pub open spec fn names(s: Seq<u8>) -> Seq<ComponentView> {
    Seq::new(spans(s).len(), |i: int| named(s.subrange(spans(s)[i].0, spans(s)[i].1)))
}

/// Whether `s` begins at the root.
pub open spec fn is_rooted(s: Seq<u8>) -> bool {
    s.len() > 0 && s[0] == SLASH
}

/// Whether the first segment of `s` is `.`.
pub open spec fn is_dotted(s: Seq<u8>) -> bool {
    s.len() > 0 && s[0] == DOT && (s.len() == 1 || s[1] == SLASH)
}

/// The component that only the front of a path can hold.
pub open spec fn head(s: Seq<u8>) -> Seq<ComponentView> {
    if is_rooted(s) {
        seq![ComponentView::RootDir]
    } else if is_dotted(s) {
        seq![ComponentView::CurDir]
    } else {
        seq![]
    }
}

/// The components of the path `s`.
pub open spec fn components(s: Seq<u8>) -> Seq<ComponentView> {
    head(s) + names(s)
}

/// How many bytes the head of `s` takes.
pub open spec fn head_len(s: Seq<u8>) -> int {
    if is_rooted(s) || is_dotted(s) {
        1
    } else {
        0
    }
}

/// `b` seen from `a`: `b` itself where it is rooted, and below `a` otherwise.
pub open spec fn joined(a: Seq<u8>, b: Seq<u8>) -> Seq<u8> {
    if is_rooted(b) {
        b
    } else if a.len() == 0 || a.last() == SLASH {
        a + b
    } else {
        a + seq![SLASH] + b
    }
}

/// `s` up to the end of its last component but one; nothing where `s` has no
/// component or is the root.
pub open spec fn parent_of(s: Seq<u8>) -> Option<Seq<u8>> {
    let found = spans(s);
    if found.len() >= 2 {
        Some(s.take(found[found.len() - 2].1))
    } else if found.len() == 1 {
        Some(s.take(head_len(s)))
    } else if is_dotted(s) {
        Some(seq![])
    } else {
        None
    }
}

/// The last component of `s`, where it is a name.
pub open spec fn file_name_of(s: Seq<u8>) -> Option<Seq<u8>> {
    if components(s).len() == 0 {
        None
    } else {
        match components(s).last() {
            ComponentView::Normal(name) => Some(name),
            _ => None,
        }
    }
}

/// Whether the components of `s` begin with those of `base`.
pub open spec fn is_below(s: Seq<u8>, base: Seq<u8>) -> bool {
    components(base).is_prefix_of(components(s))
}

/// What is left of `s` behind the components of `base`: from the start of the
/// first component that is left to the end of the last.
pub open spec fn stripped(s: Seq<u8>, base: Seq<u8>) -> Option<Seq<u8>> {
    let found = spans(s);
    let gone = components(base).len();
    let first = gone - head(s).len();
    if !is_below(s, base) {
        None
    } else if gone == 0 {
        Some(s.take(if found.len() == 0 { head_len(s) } else { found.last().1 }))
    } else if first >= found.len() {
        Some(seq![])
    } else {
        Some(s.subrange(found[first].0, found.last().1))
    }
}

/// How a component is spelled.
pub open spec fn spelled(component: ComponentView) -> Seq<u8> {
    match component {
        ComponentView::RootDir => seq![SLASH],
        ComponentView::CurDir => seq![DOT],
        ComponentView::ParentDir => seq![DOT, DOT],
        ComponentView::Normal(name) => name,
    }
}

/// The path that visits `parts` one after the other.
pub open spec fn collected(parts: Seq<ComponentView>) -> Seq<u8>
    decreases parts.len(),
{
    if parts.len() == 0 {
        seq![]
    } else {
        joined(collected(parts.drop_last()), spelled(parts.last()))
    }
}

/// `s` without its root, if it has one.
pub open spec fn unrooted(s: Seq<u8>) -> Seq<u8> {
    if is_rooted(s) {
        collected(components(s).skip(1))
    } else {
        s
    }
}

/// Where `s` lies when `root` stands for the root directory.
pub open spec fn placed(root: Seq<u8>, s: Seq<u8>) -> Seq<u8> {
    joined(root, unrooted(s))
}

/// `s`, made to begin at the root.
pub open spec fn with_root(s: Seq<u8>) -> Seq<u8> {
    if is_rooted(s) {
        s
    } else {
        joined(seq![SLASH], s)
    }
}

pub proof fn lemma_last_start(s: Seq<u8>)
    ensures
        0 <= last_start(s) <= s.len(),
        last_start(s) > 0 ==> s[last_start(s) - 1] == SLASH,
        forall|i: int| last_start(s) <= i < s.len() ==> s[i] != SLASH,
    decreases s.len(),
{
    if s.len() > 0 && s.last() != SLASH {
        lemma_last_start(s.drop_last());
        let t = s.drop_last();
        assert(forall|i: int| 0 <= i < t.len() ==> t[i] == s[i]);
    }
}

/// `last_start` is the only place that has its three properties.
pub proof fn lemma_last_start_unique(s: Seq<u8>, start: int)
    requires
        0 <= start <= s.len(),
        start > 0 ==> s[start - 1] == SLASH,
        forall|i: int| start <= i < s.len() ==> s[i] != SLASH,
    ensures
        last_start(s) == start,
{
    lemma_last_start(s);
}

/// Spans lie in `s`, one behind the other, and each holds a significant
/// segment without a slash.
pub proof fn lemma_spans(s: Seq<u8>)
    ensures
        forall|i: int| #![trigger spans(s)[i]]
            0 <= i < spans(s).len() ==> {
                &&& 0 <= spans(s)[i].0 < spans(s)[i].1 <= s.len()
                &&& significant(s.subrange(spans(s)[i].0, spans(s)[i].1))
                &&& forall|k: int| spans(s)[i].0 <= k < spans(s)[i].1 ==> s[k] != SLASH
                &&& spans(s)[i].0 > 0 ==> s[spans(s)[i].0 - 1] == SLASH
            },
        forall|i: int, j: int| #![trigger spans(s)[i], spans(s)[j]]
            0 <= i < j < spans(s).len() ==> spans(s)[i].1 < spans(s)[j].0,
    decreases s.len(),
{
    lemma_last_start(s);
    let start = last_start(s);
    assert(s.subrange(start, s.len() as int) =~= s.skip(start));
    if start > 0 {
        let t = s.take(start - 1);
        lemma_spans(t);
        assert forall|i: int| 0 <= i < spans(t).len() implies #[trigger] t.subrange(
            spans(t)[i].0,
            spans(t)[i].1,
        ) == s.subrange(spans(t)[i].0, spans(t)[i].1) by {
            assert(t.subrange(spans(t)[i].0, spans(t)[i].1) =~= s.subrange(
                spans(t)[i].0,
                spans(t)[i].1,
            ));
        }
        assert forall|i: int| 0 <= i < spans(t).len() implies #[trigger] spans(s)[i] == spans(t)[i] by {}
        assert forall|i: int| #![trigger spans(s)[i]] 0 <= i < spans(s).len() implies {
                &&& 0 <= spans(s)[i].0 < spans(s)[i].1 <= s.len()
                &&& significant(s.subrange(spans(s)[i].0, spans(s)[i].1))
                &&& forall|k: int| spans(s)[i].0 <= k < spans(s)[i].1 ==> s[k] != SLASH
                &&& spans(s)[i].0 > 0 ==> s[spans(s)[i].0 - 1] == SLASH
        } by {
            if i < spans(t).len() {
                assert(spans(s)[i] == spans(t)[i]);
                assert(t.subrange(spans(t)[i].0, spans(t)[i].1) == s.subrange(spans(t)[i].0, spans(t)[i].1));
                assert forall|k: int| spans(s)[i].0 <= k < spans(s)[i].1 implies s[k] != SLASH by {
                    assert(t[k] == s[k]);
                }
            }
        }
    }
}

impl FilePath {
    /// The path that `bytes` spell.
    pub fn from_bytes(bytes: Vec<u8>) -> (path: FilePath)
        ensures
            path@ == bytes@,
    {
        FilePath { bytes }
    }

    /// The bytes of the path.
    pub fn as_bytes(&self) -> (bytes: &Vec<u8>)
        ensures
            bytes@ == self@,
    {
        &self.bytes
    }

    /// Where the last segment of the path begins.
    pub fn last_start(&self) -> (result: usize)
        ensures
            result == last_start(self@),
            result <= self@.len(),
    {
        let mut start: usize = self.bytes.len();
        while start > 0 && self.bytes[start - 1] != SLASH
            invariant
                start <= self@.len(),
                self.bytes@ == self@,
                forall|k: int| start <= k < self@.len() ==> self@[k] != SLASH,
            decreases start,
        {
            start -= 1;
        }
        proof {
            lemma_last_start_unique(self@, start as int);
        }
        start
    }

    /// Whether the segment from `start` to `end` names something.
    fn is_significant(&self, start: usize, end: usize) -> (result: bool)
        requires
            start <= end <= self@.len(),
        ensures
            result == significant(self@.subrange(start as int, end as int)),
    {
        start < end && !(end - start == 1 && self.bytes[start] == DOT)
    }

    /// Where the significant segments begin and end, in their order.
    fn spans(&self) -> (result: Vec<(usize, usize)>)
        ensures
            spans_match(result@, self@),
    {
        let mut result: Vec<(usize, usize)> = Vec::new();
        let mut start: usize = 0;
        let mut i: usize = 0;
        let n: usize = self.bytes.len();
        assert(spans(self@.take(0)) =~= seq![]) by {
            assert(self@.take(0).skip(0).len() == 0);
        }
        while i < n
            invariant
                n == self@.len(),
                self.bytes@ == self@,
                start <= i <= n,
                start > 0 ==> self@[start - 1] == SLASH,
                forall|k: int| start <= k < i ==> self@[k] != SLASH,
                start == 0 ==> result@.len() == 0,
                start > 0 ==> spans_match(result@, self@.take(start - 1)),
            decreases n - i,
        {
            if self.bytes[i] == SLASH {
                self.close_segment(&mut result, start, i);
                start = i + 1;
            }
            i += 1;
        }
        self.close_segment(&mut result, start, n);
        assert(self@.take(n as int) =~= self@);
        result
    }

    /// Adds the segment from `start` to `end`, if it is significant, to the
    /// spans of what stands before it.
    fn close_segment(&self, result: &mut Vec<(usize, usize)>, start: usize, end: usize)
        requires
            start <= end <= self@.len(),
            start > 0 ==> self@[start - 1] == SLASH,
            forall|k: int| start <= k < end ==> self@[k] != SLASH,
            start == 0 ==> old(result)@.len() == 0,
            start > 0 ==> spans_match(old(result)@, self@.take(start - 1)),
        ensures
            spans_match(final(result)@, self@.take(end as int)),
    {
        let ghost s = self@.take(end as int);
        proof {
            lemma_last_start_unique(s, start as int);
            assert(s.skip(start as int) =~= self@.subrange(start as int, end as int));
            if start > 0 {
                assert(s.take(start - 1) =~= self@.take(start - 1));
            }
        }
        if self.is_significant(start, end) {
            result.push((start, end));
        }
    }

    /// Whether the path begins at the root.
    pub fn has_root(&self) -> (result: bool)
        ensures
            result == is_rooted(self@),
    {
        self.bytes.len() > 0 && self.bytes[0] == SLASH
    }

    /// The path `other`, seen from this one.
    pub fn join(&self, other: &FilePath) -> (result: FilePath)
        ensures
            result@ == joined(self@, other@),
    {
        if other.has_root() {
            return other.clone();
        }
        let mut bytes: Vec<u8> = self.bytes.clone();
        let len: usize = bytes.len();
        if len > 0 && bytes[len - 1] != SLASH {
            bytes.push(SLASH);
        }
        let mut rest: Vec<u8> = other.bytes.clone();
        bytes.append(&mut rest);
        FilePath { bytes }
    }

    /// The components of the path, in their order.
    pub fn components(&self) -> (result: Vec<Component>)
        ensures
            component_views(result@) == components(self@),
    {
        let found: Vec<(usize, usize)> = self.spans();
        let mut result: Vec<Component> = Vec::new();
        if self.has_root() {
            result.push(Component::RootDir);
        } else if self.is_dotted() {
            result.push(Component::CurDir);
        }
        assert(component_views(result@) =~= head(self@));
        let mut i: usize = 0;
        while i < found.len()
            invariant
                i <= found@.len(),
                spans_match(found@, self@),
                component_views(result@) == head(self@) + names(self@).take(i as int),
            decreases found.len() - i,
        {
            proof {
                lemma_spans(self@);
            }
            let (start, end): (usize, usize) = found[i];
            let ghost before = result@;
            assert(names(self@)[i as int] == named(self@.subrange(start as int, end as int)));
            result.push(self.component(start, end));
            assert(component_views(result@) =~= component_views(before).push(
                names(self@)[i as int],
            ));
            assert(names(self@).take(i + 1) =~= names(self@).take(i as int).push(
                names(self@)[i as int],
            ));
            assert(head(self@) + names(self@).take(i + 1) =~= (head(self@) + names(self@).take(
                i as int,
            )).push(names(self@)[i as int]));
            i += 1;
        }
        assert(names(self@).take(i as int) =~= names(self@));
        result
    }

    /// The component that the segment from `start` to `end` spells.
    fn component(&self, start: usize, end: usize) -> (result: Component)
        requires
            start <= end <= self@.len(),
        ensures
            result@ == named(self@.subrange(start as int, end as int)),
    {
        let segment: Vec<u8> = copy_range(&self.bytes, start, end);
        if segment.len() == 2 && segment[0] == DOT && segment[1] == DOT {
            Component::ParentDir
        } else {
            Component::Normal(segment)
        }
    }

    /// Whether the first segment of the path is `.`.
    fn is_dotted(&self) -> (result: bool)
        ensures
            result == is_dotted(self@),
    {
        self.bytes.len() > 0 && self.bytes[0] == DOT && (self.bytes.len() == 1 || self.bytes[1]
            == SLASH)
    }

    /// How many bytes the head of the path takes.
    fn head_len(&self) -> (result: usize)
        ensures
            result == head_len(self@),
            result <= self@.len(),
    {
        if self.has_root() || self.is_dotted() {
            1
        } else {
            0
        }
    }

    /// The path without its last component; `None` where there is none or
    /// where it is the root.
    pub fn parent(&self) -> (result: Option<FilePath>)
        ensures
            match result {
                Some(parent) => parent_of(self@) == Some(parent@),
                None => parent_of(self@) is None,
            },
    {
        let found: Vec<(usize, usize)> = self.spans();
        let count: usize = found.len();
        proof {
            lemma_spans(self@);
        }
        if count >= 2 {
            let end: usize = found[count - 2].1;
            Some(FilePath { bytes: copy_range(&self.bytes, 0, end) })
        } else if count == 1 {
            Some(FilePath { bytes: copy_range(&self.bytes, 0, self.head_len()) })
        } else if self.is_dotted() {
            Some(FilePath { bytes: Vec::new() })
        } else {
            None
        }
    }

    /// The last component, where it is a name.
    pub fn file_name(&self) -> (result: Option<FilePath>)
        ensures
            match result {
                Some(name) => file_name_of(self@) == Some(name@),
                None => file_name_of(self@) is None,
            },
    {
        let mut parts: Vec<Component> = self.components();
        let ghost all = parts@;
        match parts.pop() {
            Some(last) => {
                assert(component_views(all).last() == last@);
                match last {
                    Component::Normal(name) => Some(FilePath { bytes: name }),
                    _ => None,
                }
            },
            None => None,
        }
    }

    /// Whether the components of the path begin with those of `base`.
    pub fn starts_with(&self, base: &FilePath) -> (result: bool)
        ensures
            result == is_below(self@, base@),
    {
        let mine: Vec<Component> = self.components();
        let theirs: Vec<Component> = base.components();
        let ghost a = components(self@);
        let ghost b = components(base@);
        if theirs.len() > mine.len() {
            return false;
        }
        let mut i: usize = 0;
        while i < theirs.len()
            invariant
                i <= theirs@.len() <= mine@.len(),
                component_views(mine@) == a,
                component_views(theirs@) == b,
                a == components(self@),
                b == components(base@),
                forall|k: int| 0 <= k < i ==> a[k] == b[k],
            decreases theirs.len() - i,
        {
            assert(a[i as int] == mine@[i as int]@);
            assert(b[i as int] == theirs@[i as int]@);
            if !mine[i].equals(&theirs[i]) {
                assert(a.take(b.len() as int)[i as int] != b[i as int]);
                return false;
            }
            i += 1;
        }
        assert(b =~= a.take(b.len() as int));
        true
    }

    /// What is left of the path behind `base`; `None` where the path does not
    /// begin with it.
    pub fn strip_prefix(&self, base: &FilePath) -> (result: Option<FilePath>)
        ensures
            match result {
                Some(rest) => stripped(self@, base@) == Some(rest@),
                None => stripped(self@, base@) is None,
            },
    {
        if !self.starts_with(base) {
            return None;
        }
        let found: Vec<(usize, usize)> = self.spans();
        let count: usize = found.len();
        let gone: usize = base.components().len();
        let head: usize = self.head_len();
        proof {
            lemma_spans(self@);
        }
        if gone == 0 {
            let end: usize = if count == 0 {
                head
            } else {
                found[count - 1].1
            };
            return Some(FilePath { bytes: copy_range(&self.bytes, 0, end) });
        }
        if gone - head >= count {
            return Some(FilePath { bytes: Vec::new() });
        }
        let start: usize = found[gone - head].0;
        let end: usize = found[count - 1].1;
        Some(FilePath { bytes: copy_range(&self.bytes, start, end) })
    }

    /// The path without its root, if it has one.
    pub fn unrooted(&self) -> (result: FilePath)
        ensures
            result@ == unrooted(self@),
    {
        if !self.has_root() {
            return self.clone();
        }
        let parts: Vec<Component> = self.components();
        let ghost all = components(self@);
        let mut result: FilePath = FilePath { bytes: Vec::new() };
        let mut i: usize = 1;
        assert(all.skip(1).take(0) =~= seq![]);
        while i < parts.len()
            invariant
                1 <= i <= parts@.len(),
                component_views(parts@) == all,
                all == components(self@),
                result@ == collected(all.skip(1).take(i - 1)),
            decreases parts.len() - i,
        {
            assert(all[i as int] == parts@[i as int]@);
            let ghost part = all.skip(1).take(i as int);
            assert(part.drop_last() =~= all.skip(1).take(i - 1));
            assert(part.last() == all[i as int]);
            result = result.join(&parts[i].spelled());
            i += 1;
        }
        assert(all.skip(1).take(i - 1) =~= all.skip(1));
        result
    }

    /// Adds `name` below the path.
    pub fn push(&mut self, name: &FilePath)
        ensures
            final(self)@ == joined(old(self)@, name@),
    {
        let result: FilePath = self.join(name);
        self.bytes = result.bytes;
    }
}

impl Clone for FilePath {
    fn clone(&self) -> (result: FilePath)
        ensures
            result@ == self@,
    {
        FilePath { bytes: self.bytes.clone() }
    }
}

impl Component {
    /// Whether two components are the same.
    fn equals(&self, other: &Component) -> (result: bool)
        ensures
            result == (self@ == other@),
    {
        match (self, other) {
            (Component::RootDir, Component::RootDir) => true,
            (Component::CurDir, Component::CurDir) => true,
            (Component::ParentDir, Component::ParentDir) => true,
            (Component::Normal(a), Component::Normal(b)) => same_bytes(a, b),
            _ => false,
        }
    }

    /// How the component is spelled.
    fn spelled(&self) -> (result: FilePath)
        ensures
            result@ == spelled(self@),
    {
        let mut bytes: Vec<u8> = Vec::new();
        match self {
            Component::RootDir => bytes.push(SLASH),
            Component::CurDir => bytes.push(DOT),
            Component::ParentDir => {
                bytes.push(DOT);
                bytes.push(DOT);
            },
            Component::Normal(name) => {
                bytes = name.clone();
            },
        }
        assert(bytes@ =~= spelled(self@));
        FilePath { bytes }
    }
}

/// The bytes of `bytes` from `start` to `end`.
pub fn copy_range(bytes: &Vec<u8>, start: usize, end: usize) -> (result: Vec<u8>)
    requires
        start <= end <= bytes@.len(),
    ensures
        result@ == bytes@.subrange(start as int, end as int),
{
    let mut result: Vec<u8> = Vec::new();
    let mut i: usize = start;
    while i < end
        invariant
            start <= i <= end <= bytes@.len(),
            result@ == bytes@.subrange(start as int, i as int),
        decreases end - i,
    {
        result.push(bytes[i]);
        i += 1;
        assert(result@ =~= bytes@.subrange(start as int, i as int));
    }
    result
}

/// Whether two rows of bytes are the same.
pub fn same_bytes(a: &Vec<u8>, b: &Vec<u8>) -> (result: bool)
    ensures
        result == (a@ == b@),
{
    if a.len() != b.len() {
        return false;
    }
    let mut i: usize = 0;
    while i < a.len()
        invariant
            i <= a@.len() == b@.len(),
            forall|k: int| 0 <= k < i ==> a@[k] == b@[k],
        decreases a.len() - i,
    {
        if a[i] != b[i] {
            return false;
        }
        i += 1;
    }
    assert(a@ =~= b@);
    true
}

/// Whether `path` leads through a parent directory.
pub fn invalid_path(path: &FilePath) -> (result: bool)
    ensures
        result == components(path@).contains(ComponentView::ParentDir),
{
    let parts: Vec<Component> = path.components();
    let ghost all = components(path@);
    let mut i: usize = 0;
    while i < parts.len()
        invariant
            i <= parts@.len(),
            component_views(parts@) == all,
            all == components(path@),
            forall|k: int| 0 <= k < i ==> all[k] != ComponentView::ParentDir,
        decreases parts.len() - i,
    {
        assert(all[i as int] == parts@[i as int]@);
        if let Component::ParentDir = parts[i] {
            assert(all[i as int] == ComponentView::ParentDir);
            return true;
        }
        i += 1;
    }
    false
}

/// The directory that holds `path`, if any does.
pub fn get_parent(path: FilePath) -> (result: Option<FilePath>)
    ensures
        match result {
            Some(parent) => parent_of(path@) == Some(parent@),
            None => parent_of(path@) is None,
        },
{
    path.parent()
}

/// The name of `path` in its directory, if it has one.
pub fn get_filename(path: FilePath) -> (result: Option<FilePath>)
    ensures
        match result {
            Some(name) => file_name_of(path@) == Some(name@),
            None => file_name_of(path@) is None,
        },
{
    path.file_name()
}

/// Makes `path` begin at the root.
pub fn prefix_slash(path: &mut FilePath)
    ensures
        final(path)@ == with_root(old(path)@),
{
    if !path.has_root() {
        let mut root: Vec<u8> = Vec::new();
        root.push(SLASH);
        assert(root@ =~= seq![SLASH]);
        *path = FilePath::from_bytes(root).join(path);
    }
}

/// Whether `found` holds exactly the spans of `s`.
pub open spec fn spans_match(found: Seq<(usize, usize)>, s: Seq<u8>) -> bool {
    &&& found.len() == spans(s).len()
    &&& forall|i: int|
        0 <= i < found.len() ==> (#[trigger] found[i]).0 == spans(s)[i].0 && found[i].1 == spans(s)[i].1
}

} // verus!
