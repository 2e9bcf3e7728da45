//! The registry of views: one view per key, created on first use.

use crate::buffer::{Buffer, BufferView};
use crate::keyed::{
    distinct, found_in_place, index_of, lemma_distinct_found_in_place, lemma_distinct_push,
    lemma_index_of, lemma_index_of_step, shift,
};
use crate::text::{owned, same_text};
use vstd::prelude::*;

verus! {

/// The views a client holds, in the order they were created, and which of
/// them is shown.
#[derive(Debug)]
pub struct BufferManager {
    buffers: Vec<Buffer>,
    current: Option<usize>,
}

#[verifier::ext_equal]
pub struct ManagerView {
    pub buffers: Seq<BufferView>,
    /// The position of the view that is shown, if one was switched to.
    pub current: Option<int>,
}

impl View for BufferManager {
    type V = ManagerView;

    closed spec fn view(&self) -> ManagerView {
        ManagerView {
            buffers: self.buffers@.map_values(|b: Buffer| b@),
            current: match self.current {
                Some(i) => Some(i as int),
                None => None,
            },
        }
    }
}

impl ManagerView {
    pub open spec fn empty() -> ManagerView {
        ManagerView { buffers: Seq::empty(), current: None }
    }

    /// The keys of the views, in order.
    pub open spec fn names(self) -> Seq<Seq<char>> {
        self.buffers.map_values(|b: BufferView| b.name)
    }

    /// No key is registered twice, every view is well formed, and the view
    /// shown is one of them.
    pub open spec fn wf(self) -> bool {
        &&& distinct(self.names())
        &&& forall|i: int| 0 <= i < self.buffers.len() ==> (#[trigger] self.buffers[i]).wf()
        &&& match self.current {
            Some(i) => 0 <= i < self.buffers.len(),
            None => true,
        }
    }

    /// Where the view registered under `name` stands, if there is one.
    pub open spec fn position(self, name: Seq<char>) -> Option<int> {
        index_of(self.names(), name)
    }

    /// The view registered under `name`, if there is one.
    pub open spec fn get(self, name: Seq<char>) -> Option<BufferView> {
        match self.position(name) {
            Some(i) => Some(self.buffers[i]),
            None => None,
        }
    }

    /// The registry with a view under `name`: unchanged when it has one, with
    /// a fresh view added at the end otherwise.
    pub open spec fn get_or_create(self, name: Seq<char>) -> ManagerView {
        match self.position(name) {
            Some(_) => self,
            None => ManagerView { buffers: self.buffers.push(BufferView::fresh(name)), ..self },
        }
    }

    /// Where `get_or_create` leaves the view registered under `name`.
    pub open spec fn slot(self, name: Seq<char>) -> int {
        match self.position(name) {
            Some(i) => i,
            None => self.buffers.len() as int,
        }
    }

    /// The registry with the view at position `i` replaced.
    pub open spec fn put(self, i: int, buffer: BufferView) -> ManagerView {
        ManagerView { buffers: self.buffers.update(i, buffer), ..self }
    }

    /// The registry with the view at position `i` shown.
    pub open spec fn switch_to(self, i: int) -> ManagerView {
        ManagerView { current: Some(i), ..self }
    }
}

/// Asking for the view under a key twice is the same as asking once: the
/// second time the registry stays as it is, and the view that is found is the
/// one the first time left, at the place where it stood. A view that was
/// there before is found as it was; one that was not is fresh.
pub proof fn law_get_or_create_idempotent(m: ManagerView, name: Seq<char>)
    ensures
        m.get_or_create(name).get_or_create(name) == m.get_or_create(name),
        m.get_or_create(name).position(name) == Some(m.slot(name)),
        m.get_or_create(name).slot(name) == m.slot(name),
        m.get_or_create(name).get_or_create(name).get(name) == m.get_or_create(name).get(name),
        m.position(name) is Some ==> m.get_or_create(name) == m,
        m.get_or_create(name).get(name) == if m.position(name) is Some {
            m.get(name)
        } else {
            Some(BufferView::fresh(name))
        },
        m.wf() ==> m.get_or_create(name).wf(),
{
    lemma_index_of(m.names(), name);
    let after = m.get_or_create(name);
    if m.position(name) is None {
        assert(after.names() =~= m.names().push(name));
        crate::keyed::lemma_index_of_at(after.names(), name, m.buffers.len() as int);
        if m.wf() {
            lemma_distinct_push(m.names(), name);
        }
    }
}

/// Replacing a view by a well-formed one of the same key keeps the registry
/// well formed and the keys where they were.
pub proof fn lemma_put_keeps_wf(m: ManagerView, i: int, buffer: BufferView)
    requires
        m.wf(),
        0 <= i < m.buffers.len(),
        buffer.wf(),
        buffer.name == m.buffers[i].name,
    ensures
        m.put(i, buffer).wf(),
        m.put(i, buffer).names() == m.names(),
{
    assert(m.put(i, buffer).names() =~= m.names());
}

/// The registry with the view under `key` created, or found, and then
/// changed by `fill`.
pub open spec fn create_and_fill(
    m: ManagerView,
    key: Seq<char>,
    fill: spec_fn(BufferView) -> BufferView,
) -> ManagerView {
    let at = m.slot(key);
    let with_view = m.get_or_create(key);
    with_view.put(at, fill(with_view.buffers[at]))
}

/// Creating and filling a view a second time changes nothing, as long as
/// filling keeps the key and is itself without effect the second time.
pub proof fn lemma_create_and_fill_idempotent(
    m: ManagerView,
    key: Seq<char>,
    fill: spec_fn(BufferView) -> BufferView,
)
    requires
        forall|b: BufferView| (#[trigger] fill(b)).name == b.name,
        forall|b: BufferView| fill(#[trigger] fill(b)) == fill(b),
    ensures
        create_and_fill(create_and_fill(m, key, fill), key, fill) == create_and_fill(m, key, fill),
        create_and_fill(m, key, fill).buffers.len() == m.get_or_create(key).buffers.len(),
        create_and_fill(m, key, fill).position(key) == Some(m.slot(key)),
{
    law_get_or_create_idempotent(m, key);
    lemma_index_of(m.names(), key);
    let at = m.slot(key);
    let with_view = m.get_or_create(key);
    let once = create_and_fill(m, key, fill);
    assert(once.names() =~= with_view.names());
    assert(once.get_or_create(key) == once);
    assert(once.slot(key) == at);
    assert(once.put(at, fill(once.buffers[at])).buffers =~= once.buffers);
}

impl BufferManager {
    pub open spec fn wf(&self) -> bool {
        self@.wf()
    }

    /// A registry without views.
    pub fn new() -> (m: BufferManager)
        ensures
            m@ == ManagerView::empty(),
            m.wf(),
    {
        let m = BufferManager { buffers: Vec::new(), current: None };
        assert(m@.buffers =~= Seq::empty());
        m
    }

    /// How many views are registered.
    pub fn len(&self) -> (n: usize)
        ensures
            n == self@.buffers.len(),
    {
        self.buffers.len()
    }

    /// Where the view registered under `name` stands, if there is one.
    pub fn find(&self, name: &str) -> (r: Option<usize>)
        ensures
            r matches Some(i) ==> self@.position(name@) == Some(i as int) && i
                < self@.buffers.len(),
            r is None ==> self@.position(name@) is None,
    {
        let key = owned(name);
        let ghost names = self@.names();
        let mut i: usize = 0;
        assert(names.skip(0) =~= names);
        while i < self.buffers.len()
            invariant
                i <= self.buffers.len(),
                names == self@.names(),
                names.len() == self.buffers.len(),
                key@ == name@,
                index_of(names, name@) == shift(index_of(names.skip(i as int), name@), i as int),
            decreases self.buffers.len() - i,
        {
            assert(names[i as int] == self.buffers@[i as int]@.name);
            if same_text(self.buffers[i].name(), &key) {
                return Some(i);
            }
            proof {
                lemma_index_of_step(names, name@, i as int);
            }
            i = i + 1;
        }
        None
    }

    /// The view registered under `name`, if there is one.
    pub fn get_buffer(&self, name: &str) -> (r: Option<&Buffer>)
        ensures
            r matches Some(b) ==> self@.get(name@) == Some(b@),
            r is None ==> self@.get(name@) is None,
    {
        match self.find(name) {
            Some(i) => Some(&self.buffers[i]),
            None => None,
        }
    }

    /// The view at position `i`.
    pub fn buffer(&self, i: usize) -> (b: &Buffer)
        requires
            i < self@.buffers.len(),
        ensures
            b@ == self@.buffers[i as int],
    {
        &self.buffers[i]
    }

    /// The view at position `i`, to be changed in place.
    pub fn buffer_mut(&mut self, i: usize) -> (b: &mut Buffer)
        requires
            i < old(self)@.buffers.len(),
        ensures
            b@ == old(self)@.buffers[i as int],
            final(self)@.buffers =~= old(self)@.buffers.update(i as int, final(b)@),
            final(self)@.current == old(self)@.current,
            final(self)@ =~= old(self)@.put(i as int, final(b)@),
    {
        &mut self.buffers[i]
    }

    /// The position of the view registered under `name`, which is created
    /// first if there is none.
    pub fn get_or_create_buffer(&mut self, name: &str) -> (i: usize)
        requires
            old(self).wf(),
        ensures
            final(self)@ == old(self)@.get_or_create(name@),
            i == old(self)@.slot(name@),
            final(self)@.position(name@) == Some(i as int),
            i < final(self)@.buffers.len(),
            final(self).wf(),
    {
        proof {
            law_get_or_create_idempotent(self@, name@);
            lemma_index_of(self@.names(), name@);
        }
        match self.find(name) {
            Some(i) => i,
            None => {
                let i = self.buffers.len();
                self.buffers.push(Buffer::new(name));
                assert(self@.buffers =~= old(self)@.buffers.push(BufferView::fresh(name@)));
                i
            },
        }
    }

    /// Shows the view at position `i`.
    pub fn switch_to(&mut self, i: usize)
        requires
            i < old(self)@.buffers.len(),
        ensures
            final(self)@ == old(self)@.switch_to(i as int),
    {
        self.current = Some(i);
    }

    /// The position of the view that is shown, if one was switched to.
    pub fn current(&self) -> (r: Option<usize>)
        ensures
            r matches Some(i) ==> self@.current == Some(i as int),
            r is None ==> self@.current is None,
    {
        self.current
    }

    /// Whether the registry is well formed. Every registry made and changed
    /// by the operations of this library is; a caller outside it, who can
    /// replace a view through `buffer_mut`, can make sure.
    pub fn is_well_formed(&self) -> (r: bool)
        ensures
            r == self.wf(),
    {
        proof {
            lemma_distinct_found_in_place(self@.names());
        }
        if let Some(shown) = self.current {
            if shown >= self.buffers.len() {
                return false;
            }
        }
        let mut i: usize = 0;
        while i < self.buffers.len()
            invariant
                i <= self.buffers.len(),
                self@.names().len() == self.buffers.len(),
                found_in_place(self@.names(), i as int),
                distinct(self@.names()) <==> found_in_place(
                    self@.names(),
                    self@.names().len() as int,
                ),
                forall|k: int| 0 <= k < i ==> (#[trigger] self@.buffers[k]).wf(),
            decreases self.buffers.len() - i,
        {
            assert(self@.names()[i as int] == self.buffers@[i as int]@.name);
            assert(self@.buffers[i as int] == self.buffers@[i as int]@);
            if !self.buffers[i].is_well_formed() {
                return false;
            }
            match self.find(self.buffers[i].name().as_str()) {
                Some(at) => {
                    if at != i {
                        return false;
                    }
                },
                None => {
                    return false;
                },
            }
            i = i + 1;
        }
        true
    }
}

} // verus!