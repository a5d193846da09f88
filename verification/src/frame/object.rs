//! The frame object: one captured buffer while the compositor is still
//! describing it.

use vstd::prelude::*;
use vstd::set_lib::*;

verus! {

/// One memory plane of a captured buffer.
#[derive(Debug, Clone, Copy, PartialEq, Eq)]
pub struct Plane {
    /// Position of the plane in the buffer.
    pub index: u32,
    /// File descriptor that shares the plane's memory.
    pub fd: i32,
    /// Size of the plane in bytes.
    pub size: u32,
}

/// Why an event does not fit the frame it was sent for.
#[derive(Debug, Clone, Copy, PartialEq, Eq)]
pub enum FrameError {
    /// The frame was described a second time.
    MetadataAlreadySet,
    /// The described frame has no width or no height.
    EmptyFrame,
    /// The plane's index is not below the announced number of planes.
    IndexOutOfRange,
    /// A plane with this index was recorded before.
    DuplicatePlane,
}

/// What a frame object holds.
pub struct FrameView {
    /// Whether the metadata has arrived.
    pub described: bool,
    pub width: u32,
    pub height: u32,
    /// The number of planes the metadata announced.
    pub num_objects: u32,
    /// The planes recorded so far, in order of arrival.
    pub planes: Seq<Plane>,
}

impl FrameView {
    /// The frame object nothing has been recorded in.
    pub open spec fn empty() -> FrameView {
        FrameView { described: false, width: 0, height: 0, num_objects: 0, planes: Seq::empty() }
    }

    /// A plane with index `index` has been recorded.
    pub open spec fn has_plane(self, index: int) -> bool {
        exists|i: int| 0 <= i < self.planes.len() && #[trigger] self.planes[i].index == index
    }

    /// The invariant of a frame object: dimensions are positive once they
    /// are known and zero before, every recorded plane was announced, and
    /// no index is recorded twice.
    pub open spec fn well_formed(self) -> bool {
        &&& self.described ==> self.width > 0 && self.height > 0
        &&& !self.described ==> self.width == 0 && self.height == 0 && self.num_objects == 0
        &&& forall|i: int|
            0 <= i < self.planes.len() ==> (#[trigger] self.planes[i]).index < self.num_objects
        &&& forall|i: int, j: int|
            0 <= i < j < self.planes.len() ==> (#[trigger] self.planes[i]).index != (
            #[trigger] self.planes[j]).index
    }

    /// The metadata has arrived and so has every plane it announced. Only a
    /// complete frame may be imported.
    pub open spec fn complete(self) -> bool {
        &&& self.described
        &&& forall|index: int| 0 <= index < self.num_objects ==> self.has_plane(index)
    }

    /// The frame after metadata `(width, height, num_objects)` arrived.
    pub open spec fn with_metadata(self, width: u32, height: u32, num_objects: u32) -> FrameView {
        FrameView { described: true, width, height, num_objects, planes: self.planes }
    }

    /// The frame after `plane` arrived.
    pub open spec fn with_plane(self, plane: Plane) -> FrameView {
        FrameView { planes: self.planes.push(plane), ..self }
    }

    /// The indices of the recorded planes.
    pub open spec fn indices(self) -> Seq<int> {
        self.planes.map_values(|plane: Plane| plane.index as int)
    }
}

/// A frame object is complete exactly when as many planes have been
/// recorded as were announced, and never holds more than that.
pub proof fn lemma_complete_by_count(frame: FrameView)
    requires
        frame.well_formed(),
    ensures
        frame.planes.len() <= frame.num_objects,
        frame.complete() <==> frame.described && frame.planes.len() == frame.num_objects,
{
    let indices = frame.indices();
    let announced = set_int_range(0, frame.num_objects as int);
    assert(indices.no_duplicates());
    indices.unique_seq_to_set();
    lemma_int_range(0, frame.num_objects as int);
    assert(indices.to_set().subset_of(announced)) by {
        assert forall|index: int| indices.to_set().contains(index) implies announced.contains(
            index,
        ) by {
            let i = choose|i: int| 0 <= i < indices.len() && indices[i] == index;
            assert(frame.planes[i].index == index);
        }
    }
    lemma_len_subset(indices.to_set(), announced);
    if frame.described && frame.planes.len() == frame.num_objects {
        lemma_subset_equality(indices.to_set(), announced);
        assert forall|index: int| 0 <= index < frame.num_objects implies frame.has_plane(
            index,
        ) by {
            assert(announced.contains(index));
            assert(indices.to_set().contains(index));
            let i = choose|i: int| 0 <= i < indices.len() && indices[i] == index;
            assert(frame.planes[i].index == index);
        }
    }
    if frame.complete() {
        assert(announced.subset_of(indices.to_set())) by {
            assert forall|index: int| announced.contains(index) implies indices.to_set().contains(
                index,
            ) by {
                assert(frame.has_plane(index));
                let i = choose|i: int|
                    0 <= i < frame.planes.len() && #[trigger] frame.planes[i].index == index;
                assert(indices[i] == index);
            }
        }
        lemma_len_subset(announced, indices.to_set());
    }
}

/// One captured buffer, filled event by event.
#[derive(Debug)]
pub struct Object {
    described: bool,
    width: u32,
    height: u32,
    num_objects: u32,
    planes: Vec<Plane>,
}

impl View for Object {
    type V = FrameView;

    closed spec fn view(&self) -> FrameView {
        FrameView {
            described: self.described,
            width: self.width,
            height: self.height,
            num_objects: self.num_objects,
            planes: self.planes@,
        }
    }
}

impl Object {
    /// The invariant every frame object keeps.
    pub open spec fn wf(&self) -> bool {
        self@.well_formed()
    }

    /// A frame object in which nothing has been recorded.
    pub fn new() -> (frame: Object)
        ensures
            frame.wf(),
            frame@ == FrameView::empty(),
    {
        Object { described: false, width: 0, height: 0, num_objects: 0, planes: Vec::new() }
    }

    /// Records the metadata of the frame. This succeeds once: a frame
    /// without width or height and a second description are refused, and a
    /// refused call changes nothing.
    pub fn set_metadata(&mut self, width: u32, height: u32, num_objects: u32) -> (outcome: Result<
        (),
        FrameError,
    >)
        requires
            old(self).wf(),
        ensures
            final(self).wf(),
            old(self)@.described ==> outcome == Err::<(), FrameError>(
                FrameError::MetadataAlreadySet,
            ),
            !old(self)@.described && (width == 0 || height == 0) ==> outcome == Err::<
                (),
                FrameError,
            >(FrameError::EmptyFrame),
            !old(self)@.described && width > 0 && height > 0 ==> outcome == Ok::<(), FrameError>(
                (),
            ),
            outcome is Ok ==> final(self)@ == old(self)@.with_metadata(width, height, num_objects),
            outcome is Err ==> final(self)@ == old(self)@,
    {
        if self.described {
            return Err(FrameError::MetadataAlreadySet);
        }
        if width == 0 || height == 0 {
            return Err(FrameError::EmptyFrame);
        }
        assert(self@.planes.len() == 0) by {
            if self@.planes.len() > 0 {
                assert(self@.planes[0].index < self@.num_objects);
            }
        }
        self.described = true;
        self.width = width;
        self.height = height;
        self.num_objects = num_objects;
        Ok(())
    }

    /// Records one plane. A plane that was not announced and a plane that
    /// was recorded before are refused, and a refused call changes nothing.
    pub fn set_object(&mut self, index: u32, fd: i32, size: u32) -> (outcome: Result<
        (),
        FrameError,
    >)
        requires
            old(self).wf(),
        ensures
            final(self).wf(),
            index >= old(self)@.num_objects ==> outcome == Err::<(), FrameError>(
                FrameError::IndexOutOfRange,
            ),
            index < old(self)@.num_objects && old(self)@.has_plane(index as int) ==> outcome
                == Err::<(), FrameError>(FrameError::DuplicatePlane),
            index < old(self)@.num_objects && !old(self)@.has_plane(index as int) ==> outcome
                == Ok::<(), FrameError>(()),
            outcome is Ok ==> final(self)@ == old(self)@.with_plane(Plane { index, fd, size }),
            outcome is Err ==> final(self)@ == old(self)@,
    {
        if index >= self.num_objects {
            return Err(FrameError::IndexOutOfRange);
        }
        let mut position: usize = 0;
        while position < self.planes.len()
            invariant
                position <= self.planes@.len(),
                *self == *old(self),
                self.wf(),
                index < self.num_objects,
                forall|i: int| 0 <= i < position ==> (#[trigger] self.planes@[i]).index != index,
            decreases self.planes@.len() - position,
        {
            if self.planes[position].index == index {
                assert(self@.planes[position as int].index == index);
                return Err(FrameError::DuplicatePlane);
            }
            position += 1;
        }
        self.planes.push(Plane { index, fd, size });
        assert(self@ == old(self)@.with_plane(Plane { index, fd, size }));
        Ok(())
    }

    /// Whether every announced plane has arrived, found by counting the
    /// recorded planes.
    pub fn is_complete(&self) -> (complete: bool)
        requires
            self.wf(),
        ensures
            complete == self@.complete(),
    {
        proof {
            lemma_complete_by_count(self@);
        }
        self.described && self.planes.len() == self.num_objects as usize
    }

    /// Width of the captured buffer in pixels, 0 while it is unknown.
    pub fn width(&self) -> (width: u32)
        ensures
            width == self@.width,
    {
        self.width
    }

    /// Height of the captured buffer in pixels, 0 while it is unknown.
    pub fn height(&self) -> (height: u32)
        ensures
            height == self@.height,
    {
        self.height
    }

    /// The number of planes the metadata announced.
    pub fn num_objects(&self) -> (num_objects: u32)
        ensures
            num_objects == self@.num_objects,
    {
        self.num_objects
    }

    /// The planes recorded so far, in order of arrival.
    pub fn planes(&self) -> (planes: &Vec<Plane>)
        ensures
            planes@ == self@.planes,
    {
        &self.planes
    }
}

impl Default for Object {
    fn default() -> (frame: Object)
        ensures
            frame.wf(),
            frame@ == FrameView::empty(),
    {
        Object::new()
    }
}

} // verus!
