//! The GPU processor: which memory it takes, how large its images are and
//! which commands it records to downsample a frame. The decisions are made
//! here on plain values; the driver of the GPU carries them out.

use crate::frame::capturer::FatalError;
use crate::frame::compute_perceived_lightness_percent;
use crate::frame::perceived_lightness;
use crate::frame::object::{FrameView, Object};
use crate::frame::processor::ProcessorError;
use vstd::arithmetic::power2::{lemma2_to64, lemma_pow2_unfold, pow2};
use vstd::prelude::*;

verus! {

/// The transient image never holds more mip levels than this.
pub const FINAL_MIP_LEVEL: u32 = 4;

/// Size in bytes of the readback buffer: room for 500 pixels of 4 bytes.
pub const BUFFER_PIXELS: u64 = 500 * 4;

/// How long the processor waits for the GPU, in nanoseconds.
pub const FENCES_TIMEOUT_NS: u64 = 1_000_000_000;

/// Calls `ash::vk::make_api_version`, which is trusted to pack the four
/// parts of a version into one number: the variant from bit 29 on, the
/// major version from bit 22 on, the minor version from bit 12 on and the
/// patch below them.
#[verifier::external_body]
fn make_api_version(variant: u32, major: u32, minor: u32, patch: u32) -> (version: u32)
    ensures
        version == (variant << 29) | (major << 22) | (minor << 12) | patch,
{
    ash::vk::make_api_version(variant, major, minor, patch)
}

/// The version the processor announces itself with to the GPU's driver:
/// 4.1.2.
pub fn wluma_version() -> (version: u32)
    ensures
        version == 0x0100_1002,
{
    assert((0u32 << 29) | (4u32 << 22) | (1u32 << 12) | 2u32 == 0x0100_1002) by (bit_vector);
    make_api_version(0, 4, 1, 2)
}

/// The version of Vulkan the processor asks for: 1.2.0.
pub fn vulkan_version() -> (version: u32)
    ensures
        version == 0x0040_2000,
{
    assert((0u32 << 29) | (1u32 << 22) | (2u32 << 12) | 0u32 == 0x0040_2000) by (bit_vector);
    make_api_version(0, 1, 2, 0)
}

/// Memory that is local to the GPU.
pub const MEMORY_DEVICE_LOCAL: u32 = 0x1;

/// Memory that the host can map.
pub const MEMORY_HOST_VISIBLE: u32 = 0x2;

/// Memory whose host writes and reads need no flushing.
pub const MEMORY_HOST_COHERENT: u32 = 0x4;

/// What an allocation asks of the memory it is bound to.
#[derive(Debug, Clone, Copy, PartialEq, Eq)]
pub struct MemoryRequirements {
    pub size: u64,
    pub alignment: u64,
    /// Bit `i` is set where the memory type with index `i` may be used.
    pub memory_type_bits: u32,
}

/// One kind of memory a device offers.
#[derive(Debug, Clone, Copy, PartialEq, Eq)]
pub struct MemoryType {
    /// The properties of the memory, one bit each.
    pub property_flags: u32,
    pub heap_index: u32,
}

/// The kinds of memory a device offers, by index.
#[derive(Debug, Clone, PartialEq, Eq)]
pub struct PhysicalDeviceMemoryProperties {
    pub memory_types: Vec<MemoryType>,
}

/// The memory type with index `index` may hold an allocation that has the
/// type bits `memory_type_bits` and asks for the properties `flags`: its
/// bit is set among the type bits and it has every property asked for.
pub open spec fn memory_type_qualifies(
    memory_type_bits: u32,
    memory_types: Seq<MemoryType>,
    flags: u32,
    index: int,
) -> bool {
    &&& 0 <= index < memory_types.len()
    &&& index < 32
    &&& (1u32 << (index as u32)) & memory_type_bits != 0
    &&& memory_types[index].property_flags & flags == flags
}

/// Some memory type qualifies.
pub open spec fn some_memory_type_qualifies(
    memory_type_bits: u32,
    memory_types: Seq<MemoryType>,
    flags: u32,
) -> bool {
    exists|index: int| memory_type_qualifies(memory_type_bits, memory_types, flags, index)
}

/// The lowest index of a memory type that qualifies, if there is one.
pub open spec fn find_memory_type(
    memory_type_bits: u32,
    memory_types: Seq<MemoryType>,
    flags: u32,
) -> Option<u32> {
    if some_memory_type_qualifies(memory_type_bits, memory_types, flags) {
        Some(
            choose|index: u32|
                memory_type_qualifies(memory_type_bits, memory_types, flags, index as int)
                    && forall|lower: int|
                    0 <= lower < index ==> !memory_type_qualifies(
                        memory_type_bits,
                        memory_types,
                        flags,
                        lower,
                    ),
        )
    } else {
        None
    }
}

/// Selects the memory type for an allocation: the one with the lowest index
/// among those that qualify, none where no type qualifies.
pub fn find_memory_type_index(
    memory_req: &MemoryRequirements,
    memory_prop: &PhysicalDeviceMemoryProperties,
    flags: u32,
) -> (found: Option<u32>)
    ensures
        found matches Some(index) ==> memory_type_qualifies(
            memory_req.memory_type_bits,
            memory_prop.memory_types@,
            flags,
            index as int,
        ) && forall|lower: int|
            0 <= lower < index ==> !memory_type_qualifies(
                memory_req.memory_type_bits,
                memory_prop.memory_types@,
                flags,
                lower,
            ),
        found is None ==> forall|index: int|
            !memory_type_qualifies(
                memory_req.memory_type_bits,
                memory_prop.memory_types@,
                flags,
                index,
            ),
        found == find_memory_type(memory_req.memory_type_bits, memory_prop.memory_types@, flags),
{
    let count: usize = memory_prop.memory_types.len();
    let mut index: u32 = 0;
    while index < 32 && (index as usize) < count
        invariant
            index <= 32,
            count == memory_prop.memory_types@.len(),
            forall|lower: int|
                0 <= lower < index ==> !memory_type_qualifies(
                    memory_req.memory_type_bits,
                    memory_prop.memory_types@,
                    flags,
                    lower,
                ),
        decreases 32 - index,
    {
        if (1u32 << index) & memory_req.memory_type_bits != 0
            && memory_prop.memory_types[index as usize].property_flags & flags == flags {
            proof {
                let bits = memory_req.memory_type_bits;
                let types = memory_prop.memory_types@;
                assert(memory_type_qualifies(bits, types, flags, index as int));
                let lowest = choose|lowest: u32|
                    memory_type_qualifies(bits, types, flags, lowest as int) && forall|lower: int|
                        0 <= lower < lowest ==> !memory_type_qualifies(bits, types, flags, lower);
                assert(lowest == index) by {
                    if lowest < index {
                        assert(!memory_type_qualifies(bits, types, flags, lowest as int));
                    }
                    if index < lowest {
                        assert(!memory_type_qualifies(bits, types, flags, index as int));
                    }
                }
            }
            return Some(index);
        }
        index += 1;
    }
    None
}

/// The number of mip levels of an image whose longer side is `longest`
/// pixels: one, and one more for each time the side can be halved before
/// it is a single pixel. This is the number of binary digits of `longest`.
pub open spec fn full_mip_levels(longest: int) -> int
    decreases longest,
{
    if longest <= 1 {
        1
    } else {
        1 + full_mip_levels(longest / 2)
    }
}

/// The levels of an image are one more than the logarithm of its longer
/// side to the base 2, rounded down.
pub proof fn lemma_mip_levels_are_binary_digits(longest: int)
    requires
        longest >= 1,
    ensures
        full_mip_levels(longest) >= 1,
        pow2((full_mip_levels(longest) - 1) as nat) <= longest < pow2(
            full_mip_levels(longest) as nat,
        ),
    decreases longest,
{
    if longest == 1 {
        lemma2_to64();
    } else {
        lemma_mip_levels_are_binary_digits(longest / 2);
        let below = full_mip_levels(longest / 2);
        lemma_pow2_unfold(below as nat);
        lemma_pow2_unfold((below + 1) as nat);
    }
}

/// The size of the image a frame is downsampled into, half the frame in
/// each direction, and the number of mip levels of an image of that size.
pub fn image_dimensions(frame: &Object) -> (dimensions: (u32, u32, u32))
    ensures
        dimensions.0 == frame@.width / 2,
        dimensions.1 == frame@.height / 2,
        dimensions.2 == full_mip_levels(
            if dimensions.0 >= dimensions.1 {
                dimensions.0 as int
            } else {
                dimensions.1 as int
            },
        ),
        1 <= dimensions.2 <= 32,
{
    let width: u32 = frame.width() / 2;
    let height: u32 = frame.height() / 2;
    let longest: u32 = if width >= height {
        width
    } else {
        height
    };
    let mut rest: u32 = longest;
    let mut mip_levels: u32 = 1;
    proof {
        lemma2_to64();
        let unit = pow2((mip_levels - 1) as nat);
        assert(rest as int * unit == rest) by (nonlinear_arith)
            requires
                unit == 1,
        ;
    }
    while rest > 1
        invariant
            1 <= mip_levels,
            mip_levels + full_mip_levels(rest as int) == 1 + full_mip_levels(longest as int),
            rest as int * pow2((mip_levels - 1) as nat) <= longest,
            longest <= u32::MAX,
            mip_levels <= 32,
        decreases rest,
    {
        proof {
            lemma_pow2_unfold(mip_levels as nat);
            assert((rest / 2) * (2 * pow2((mip_levels - 1) as nat)) <= rest * pow2(
                (mip_levels - 1) as nat,
            )) by (nonlinear_arith)
                requires
                    rest >= 0,
            ;
            assert(mip_levels < 32) by {
                if mip_levels == 32 {
                    lemma2_to64();
                    assert(rest * pow2(31) >= 2 * pow2(31)) by (nonlinear_arith)
                        requires
                            rest >= 2,
                    ;
                }
            }
        }
        rest = rest / 2;
        mip_levels += 1;
    }
    (width, height, mip_levels)
}

/// The limits a processor is built with.
#[derive(Debug, Clone, Copy, PartialEq, Eq)]
pub struct Limits {
    /// The transient image never holds more mip levels than this.
    pub final_mip_level: u32,
    /// Size of the readback buffer in bytes.
    pub buffer_bytes: u64,
    /// How long to wait for the GPU, in nanoseconds.
    pub fences_timeout_ns: u64,
}

impl Limits {
    /// Limits a processor can work with: at least one mip level, and a
    /// readback buffer of at least `BUFFER_PIXELS` bytes.
    pub open spec fn valid(self) -> bool {
        self.final_mip_level >= 1 && self.buffer_bytes >= BUFFER_PIXELS
    }
}

impl Default for Limits {
    fn default() -> (limits: Limits)
        ensures
            limits.valid(),
            limits == (Limits {
                final_mip_level: FINAL_MIP_LEVEL,
                buffer_bytes: BUFFER_PIXELS,
                fences_timeout_ns: FENCES_TIMEOUT_NS,
            }),
    {
        Limits {
            final_mip_level: FINAL_MIP_LEVEL,
            buffer_bytes: BUFFER_PIXELS,
            fences_timeout_ns: FENCES_TIMEOUT_NS,
        }
    }
}

/// The images a processor works on.
#[derive(Debug, Clone, Copy, PartialEq, Eq)]
pub enum Image {
    /// The captured frame, imported as it is.
    Frame,
    /// The processor's own image with its mip levels.
    Mipmaps,
}

/// What an image, or some of its mip levels, is laid out for.
#[derive(Debug, Clone, Copy, PartialEq, Eq)]
pub enum Layout {
    Undefined,
    /// The image is read by a transfer.
    TransferSource,
    /// The image is written by a transfer.
    TransferDestination,
}

/// One command recorded for the GPU.
#[derive(Debug, Clone, Copy, PartialEq, Eq)]
pub enum GpuCommand {
    /// Moves `mip_levels` levels of an image, from `base_mip_level` on,
    /// from one layout to another before the next command runs.
    Barrier {
        image: Image,
        base_mip_level: u32,
        mip_levels: u32,
        old_layout: Layout,
        new_layout: Layout,
    },
    /// Scales one mip level of an image into another with linear filtering.
    Blit {
        source: Image,
        source_width: u32,
        source_height: u32,
        source_mip_level: u32,
        target: Image,
        target_width: u32,
        target_height: u32,
        target_mip_level: u32,
    },
    /// Copies a mip level of the processor's image into the readback buffer.
    Copy { mip_level: u32, width: u32, height: u32 },
}

/// The image a processor has to allocate before it can go on.
#[derive(Debug, Clone, Copy, PartialEq, Eq)]
pub struct ImageRequest {
    pub width: u32,
    pub height: u32,
    pub mip_levels: u32,
}

/// What is to be done on the GPU for one frame.
#[derive(Debug, Clone, PartialEq, Eq)]
pub struct FramePlan {
    /// The image to allocate in place of the processor's present one, if
    /// that one does not fit the frame.
    pub allocate: Option<ImageRequest>,
    /// The commands to record and submit, in order.
    pub commands: Vec<GpuCommand>,
    /// Width of the mip level that is read back.
    pub width: u32,
    /// Height of the mip level that is read back.
    pub height: u32,
}

/// The side of a mip level: each level halves the side of the level above
/// it, down to one pixel.
pub open spec fn mip_extent(extent: int, level: int) -> int
    decreases level,
{
    if level <= 0 {
        extent
    } else if mip_extent(extent, level - 1) / 2 >= 1 {
        mip_extent(extent, level - 1) / 2
    } else {
        1
    }
}

/// The number of mip levels of the image for a frame: those of an image of
/// half the frame's size, but no more than `cap`.
pub open spec fn mip_levels(frame: FrameView, cap: u32) -> int {
    let longest = if frame.width / 2 >= frame.height / 2 {
        frame.width as int / 2
    } else {
        frame.height as int / 2
    };
    if full_mip_levels(longest) <= cap {
        full_mip_levels(longest)
    } else {
        cap as int
    }
}

proof fn lemma_full_mip_levels_are_positive(longest: int)
    ensures
        full_mip_levels(longest) >= 1,
    decreases longest,
{
    if longest > 1 {
        lemma_full_mip_levels_are_positive(longest / 2);
    }
}

/// Every frame is given at least one mip level and none more than the cap.
pub proof fn lemma_mip_levels_are_capped(frame: FrameView, cap: u32)
    requires
        cap >= 1,
    ensures
        1 <= mip_levels(frame, cap) <= cap,
{
    lemma_full_mip_levels_are_positive(frame.width as int / 2);
    lemma_full_mip_levels_are_positive(frame.height as int / 2);
}

/// The commands that make `level` of the processor's image from the level
/// above it: that level is laid out for reading, then scaled down.
pub open spec fn mip_step(width: int, height: int, level: int) -> Seq<GpuCommand> {
    seq![
        GpuCommand::Barrier {
            image: Image::Mipmaps,
            base_mip_level: (level - 1) as u32,
            mip_levels: 1,
            old_layout: Layout::TransferDestination,
            new_layout: Layout::TransferSource,
        },
        GpuCommand::Blit {
            source: Image::Mipmaps,
            source_width: mip_extent(width, level - 1) as u32,
            source_height: mip_extent(height, level - 1) as u32,
            source_mip_level: (level - 1) as u32,
            target: Image::Mipmaps,
            target_width: mip_extent(width, level) as u32,
            target_height: mip_extent(height, level) as u32,
            target_mip_level: level as u32,
        },
    ]
}

/// The commands that make the levels 1 to `last` of an image of the given
/// size, one after the other.
pub open spec fn mip_chain(width: int, height: int, last: int) -> Seq<GpuCommand>
    decreases last,
{
    if last <= 0 {
        Seq::empty()
    } else {
        mip_chain(width, height, last - 1) + mip_step(width, height, last)
    }
}

/// The commands that fill level 0 of an image of `levels` mip levels: the
/// frame is laid out for reading and the image for writing, then the frame
/// is scaled to half its size into level 0.
pub open spec fn first_level(frame: FrameView, levels: int) -> Seq<GpuCommand> {
    seq![
        GpuCommand::Barrier {
            image: Image::Frame,
            base_mip_level: 0,
            mip_levels: 1,
            old_layout: Layout::Undefined,
            new_layout: Layout::TransferSource,
        },
        GpuCommand::Barrier {
            image: Image::Mipmaps,
            base_mip_level: 0,
            mip_levels: levels as u32,
            old_layout: Layout::Undefined,
            new_layout: Layout::TransferDestination,
        },
        GpuCommand::Blit {
            source: Image::Frame,
            source_width: frame.width,
            source_height: frame.height,
            source_mip_level: 0,
            target: Image::Mipmaps,
            target_width: frame.width / 2,
            target_height: frame.height / 2,
            target_mip_level: 0,
        },
    ]
}

/// The commands that downsample a frame into an image of `levels` mip
/// levels: level 0 is filled from the frame, and each further level is
/// made from the one above it.
pub open spec fn downsampling(frame: FrameView, levels: int) -> Seq<GpuCommand> {
    first_level(frame, levels) + mip_chain(
        frame.width as int / 2,
        frame.height as int / 2,
        levels - 1,
    )
}

/// The commands that bring a mip level into the readback buffer: the level
/// is laid out for reading, then copied.
pub open spec fn readback(mip_level: u32, width: u32, height: u32) -> Seq<GpuCommand> {
    seq![
        GpuCommand::Barrier {
            image: Image::Mipmaps,
            base_mip_level: mip_level,
            mip_levels: 1,
            old_layout: Layout::TransferDestination,
            new_layout: Layout::TransferSource,
        },
        GpuCommand::Copy { mip_level, width, height },
    ]
}

/// Width of the mip level of a frame's image that is read back.
pub open spec fn final_width(frame: FrameView, cap: u32) -> int {
    mip_extent(frame.width as int / 2, mip_levels(frame, cap) - 1)
}

/// Height of the mip level of a frame's image that is read back.
pub open spec fn final_height(frame: FrameView, cap: u32) -> int {
    mip_extent(frame.height as int / 2, mip_levels(frame, cap) - 1)
}

/// The stage at which a frame cannot be processed within the limits, if
/// there is one: a frame that is incomplete or has no plane cannot be
/// imported, a frame too small to be halved leaves no image to allocate,
/// and a last mip level larger than the readback buffer cannot be read.
pub open spec fn refusal(limits: Limits, frame: FrameView) -> Option<ProcessorError> {
    if !frame.complete() || frame.num_objects == 0 {
        Some(ProcessorError::Import)
    } else if frame.width < 2 || frame.height < 2 {
        Some(ProcessorError::MemoryAllocation)
    } else if 4 * (final_width(frame, limits.final_mip_level) * final_height(
        frame,
        limits.final_mip_level,
    )) > limits.buffer_bytes {
        Some(ProcessorError::Readback)
    } else {
        None
    }
}

/// The highest mip level of the processor's image that a command reads or
/// writes, 0 for a command that leaves the image alone.
pub open spec fn highest_level(command: GpuCommand) -> int {
    match command {
        GpuCommand::Barrier { image, base_mip_level, mip_levels, .. } => if image is Mipmaps {
            base_mip_level + mip_levels - 1
        } else {
            0
        },
        GpuCommand::Blit { source, source_mip_level, target_mip_level, .. } => if source
            is Mipmaps && source_mip_level > target_mip_level {
            source_mip_level as int
        } else {
            target_mip_level as int
        },
        GpuCommand::Copy { mip_level, .. } => mip_level as int,
    }
}

proof fn lemma_mip_chain_stays_within_levels(width: int, height: int, last: int)
    requires
        0 <= last < u32::MAX,
    ensures
        mip_chain(width, height, last).len() == 2 * last,
        forall|i: int|
            0 <= i < 2 * last ==> highest_level(#[trigger] mip_chain(width, height, last)[i])
                <= last,
    decreases last,
{
    if last > 0 {
        lemma_mip_chain_stays_within_levels(width, height, last - 1);
        let before = mip_chain(width, height, last - 1);
        let step = mip_step(width, height, last);
        assert forall|i: int| 0 <= i < 2 * last implies highest_level(
            #[trigger] mip_chain(width, height, last)[i],
        ) <= last by {
            if i < before.len() {
                assert(mip_chain(width, height, last)[i] == before[i]);
            } else {
                assert(mip_chain(width, height, last)[i] == step[i - before.len()]);
            }
        }
    }
}

/// The commands for a frame are three for its first mip level and two for
/// each further level and for the readback, and none of them reads or
/// writes a mip level beyond those the processor's limits allow.
pub proof fn lemma_commands_stay_within_levels(processor: PipelineView, frame: FrameView)
    requires
        processor.limits.valid(),
    ensures
        processor.frame_commands(frame).len() == 2 * mip_levels(
            frame,
            processor.limits.final_mip_level,
        ) + 3,
        forall|i: int|
            0 <= i < processor.frame_commands(frame).len() ==> highest_level(
                #[trigger] processor.frame_commands(frame)[i],
            ) < processor.limits.final_mip_level,
{
    let cap = processor.limits.final_mip_level;
    let levels = mip_levels(frame, cap);
    lemma_mip_levels_are_capped(frame, cap);
    let width = frame.width as int / 2;
    let height = frame.height as int / 2;
    lemma_mip_chain_stays_within_levels(width, height, levels - 1);
    let head = first_level(frame, levels);
    let chain = mip_chain(width, height, levels - 1);
    let tail = readback(
        (levels - 1) as u32,
        final_width(frame, cap) as u32,
        final_height(frame, cap) as u32,
    );
    let commands = processor.frame_commands(frame);
    assert(commands == head + chain + tail);
    assert forall|i: int| 0 <= i < commands.len() implies highest_level(#[trigger] commands[i])
        < cap by {
        if i < 3 {
            assert(commands[i] == head[i]);
        } else if i < 3 + chain.len() {
            assert(commands[i] == chain[i - 3]);
        } else {
            assert(commands[i] == tail[i - 3 - chain.len()]);
        }
    }
}

/// What a processor holds.
pub struct PipelineView {
    pub limits: Limits,
    /// The size of the processor's image, if it has one.
    pub image_resolution: Option<(u32, u32)>,
    /// The commands recorded and not yet submitted.
    pub commands: Seq<GpuCommand>,
}

impl PipelineView {
    /// The image to allocate for `frame`: none where the processor's image
    /// has the size the frame needs.
    pub open spec fn image_request(self, frame: FrameView) -> Option<ImageRequest> {
        if self.image_resolution == Some((frame.width / 2, frame.height / 2)) {
            None
        } else {
            Some(
                ImageRequest {
                    width: frame.width / 2,
                    height: frame.height / 2,
                    mip_levels: mip_levels(frame, self.limits.final_mip_level) as u32,
                },
            )
        }
    }

    /// The commands for `frame`, from laying out the images to the copy
    /// into the readback buffer.
    pub open spec fn frame_commands(self, frame: FrameView) -> Seq<GpuCommand> {
        let levels = mip_levels(frame, self.limits.final_mip_level);
        downsampling(frame, levels) + readback(
            (levels - 1) as u32,
            final_width(frame, self.limits.final_mip_level) as u32,
            final_height(frame, self.limits.final_mip_level) as u32,
        )
    }
}

/// The GPU processor's bookkeeping: its limits, the size of its image and
/// the commands it is recording.
#[derive(Debug)]
pub struct OpenGL {
    limits: Limits,
    image_resolution: Option<(u32, u32)>,
    commands: Vec<GpuCommand>,
}

impl View for OpenGL {
    type V = PipelineView;

    closed spec fn view(&self) -> PipelineView {
        PipelineView {
            limits: self.limits,
            image_resolution: self.image_resolution,
            commands: self.commands@,
        }
    }
}

proof fn lemma_mip_extent_stays_positive(extent: int, level: int)
    requires
        extent >= 1,
    ensures
        1 <= mip_extent(extent, level) <= extent,
    decreases level,
{
    if level > 0 {
        lemma_mip_extent_stays_positive(extent, level - 1);
    }
}

impl OpenGL {
    /// The invariant every processor keeps.
    pub open spec fn wf(&self) -> bool {
        self@.limits.valid()
    }

    /// A processor without an image. Limits that allow no mip level or a
    /// readback buffer below `BUFFER_PIXELS` bytes are refused.
    pub fn new(limits: Limits) -> (processor: Result<OpenGL, FatalError>)
        ensures
            limits.valid() ==> (processor matches Ok(p) && p.wf() && p@ == (PipelineView {
                limits,
                image_resolution: None,
                commands: Seq::empty(),
            })),
            !limits.valid() ==> processor matches Err(FatalError::GpuInitialization),
    {
        if limits.final_mip_level >= 1 && limits.buffer_bytes >= BUFFER_PIXELS {
            Ok(OpenGL { limits, image_resolution: None, commands: Vec::new() })
        } else {
            Err(FatalError::GpuInitialization)
        }
    }

    /// The number of mip levels of the image for `frame`.
    fn capped_mip_levels(&self, frame: &Object) -> (levels: u32)
        requires
            self.wf(),
        ensures
            levels == mip_levels(frame@, self@.limits.final_mip_level),
            1 <= levels <= self@.limits.final_mip_level,
            levels <= 32,
    {
        let (_, _, levels) = image_dimensions(frame);
        if levels <= self.limits.final_mip_level {
            levels
        } else {
            self.limits.final_mip_level
        }
    }

    /// Decides whether the processor's image fits `frame`. Where it does
    /// not, the image is given up and the one to allocate is returned.
    fn init_image(&mut self, frame: &Object) -> (request: Option<ImageRequest>)
        requires
            old(self).wf(),
        ensures
            final(self).wf(),
            request == old(self)@.image_request(frame@),
            request is None ==> final(self)@ == old(self)@,
            request is Some ==> final(self)@ == (PipelineView {
                image_resolution: None,
                ..old(self)@
            }),
    {
        let width: u32 = frame.width() / 2;
        let height: u32 = frame.height() / 2;
        let fits = match self.image_resolution {
            Some((cached_width, cached_height)) => cached_width == width && cached_height
                == height,
            None => false,
        };
        if fits {
            None
        } else {
            self.image_resolution = None;
            Some(ImageRequest { width, height, mip_levels: self.capped_mip_levels(frame) })
        }
    }

    /// Starts a recording.
    fn begin_commands(&mut self)
        ensures
            final(self)@ == (PipelineView { commands: Seq::empty(), ..old(self)@ }),
    {
        self.commands = Vec::new();
    }

    fn add_barrier(
        &mut self,
        image: Image,
        base_mip_level: u32,
        mip_levels: u32,
        old_layout: Layout,
        new_layout: Layout,
    )
        ensures
            final(self)@ == (PipelineView {
                commands: old(self)@.commands.push(
                    GpuCommand::Barrier {
                        image,
                        base_mip_level,
                        mip_levels,
                        old_layout,
                        new_layout,
                    },
                ),
                ..old(self)@
            }),
    {
        self.commands.push(
            GpuCommand::Barrier { image, base_mip_level, mip_levels, old_layout, new_layout },
        );
    }

    fn blit(
        &mut self,
        source: Image,
        source_width: u32,
        source_height: u32,
        source_mip_level: u32,
        target: Image,
        target_width: u32,
        target_height: u32,
        target_mip_level: u32,
    )
        ensures
            final(self)@ == (PipelineView {
                commands: old(self)@.commands.push(
                    GpuCommand::Blit {
                        source,
                        source_width,
                        source_height,
                        source_mip_level,
                        target,
                        target_width,
                        target_height,
                        target_mip_level,
                    },
                ),
                ..old(self)@
            }),
    {
        self.commands.push(
            GpuCommand::Blit {
                source,
                source_width,
                source_height,
                source_mip_level,
                target,
                target_width,
                target_height,
                target_mip_level,
            },
        );
    }

    /// Records the downsampling of `frame` and returns the last mip level
    /// made, with its width and height.
    fn generate_mipmaps(&mut self, frame: &Object) -> (last: (u32, u32, u32))
        requires
            old(self).wf(),
            frame@.width >= 2,
            frame@.height >= 2,
        ensures
            final(self).wf(),
            final(self)@ == (PipelineView {
                commands: old(self)@.commands + downsampling(
                    frame@,
                    mip_levels(frame@, old(self)@.limits.final_mip_level),
                ),
                ..old(self)@
            }),
            last.0 == mip_levels(frame@, old(self)@.limits.final_mip_level) - 1,
            last.1 == final_width(frame@, old(self)@.limits.final_mip_level),
            last.2 == final_height(frame@, old(self)@.limits.final_mip_level),
            last.1 >= 1,
            last.2 >= 1,
    {
        let width: u32 = frame.width() / 2;
        let height: u32 = frame.height() / 2;
        let levels: u32 = self.capped_mip_levels(frame);
        self.add_barrier(Image::Frame, 0, 1, Layout::Undefined, Layout::TransferSource);
        self.add_barrier(Image::Mipmaps, 0, levels, Layout::Undefined, Layout::TransferDestination);
        self.blit(Image::Frame, frame.width(), frame.height(), 0, Image::Mipmaps, width, height, 0);
        let ghost start = self@.commands;
        assert(start == old(self)@.commands + first_level(frame@, levels as int));
        let mut mip_width: u32 = width;
        let mut mip_height: u32 = height;
        let mut level: u32 = 1;
        while level < levels
            invariant
                1 <= level <= levels,
                self.wf(),
                self@.limits == old(self)@.limits,
                self@.image_resolution == old(self)@.image_resolution,
                self@.commands == start + mip_chain(width as int, height as int, level - 1),
                mip_width == mip_extent(width as int, level - 1),
                mip_height == mip_extent(height as int, level - 1),
                mip_width >= 1,
                mip_height >= 1,
            decreases levels - level,
        {
            let next_width: u32 = if mip_width / 2 >= 1 {
                mip_width / 2
            } else {
                1
            };
            let next_height: u32 = if mip_height / 2 >= 1 {
                mip_height / 2
            } else {
                1
            };
            self.add_barrier(
                Image::Mipmaps,
                level - 1,
                1,
                Layout::TransferDestination,
                Layout::TransferSource,
            );
            self.blit(
                Image::Mipmaps,
                mip_width,
                mip_height,
                level - 1,
                Image::Mipmaps,
                next_width,
                next_height,
                level,
            );
            assert(self@.commands == start + mip_chain(width as int, height as int, level as int));
            mip_width = next_width;
            mip_height = next_height;
            level += 1;
        }
        assert(self@.commands == old(self)@.commands + downsampling(frame@, levels as int));
        (levels - 1, mip_width, mip_height)
    }

    /// Records the copy of a mip level into the readback buffer.
    fn copy_mipmap(&mut self, mip_level: u32, width: u32, height: u32)
        ensures
            final(self)@ == (PipelineView {
                commands: old(self)@.commands + readback(mip_level, width, height),
                ..old(self)@
            }),
    {
        self.add_barrier(
            Image::Mipmaps,
            mip_level,
            1,
            Layout::TransferDestination,
            Layout::TransferSource,
        );
        self.commands.push(GpuCommand::Copy { mip_level, width, height });
        assert(self@.commands == old(self)@.commands + readback(mip_level, width, height));
    }

    /// Ends the recording and hands out what was recorded.
    fn submit_commands(&mut self) -> (commands: Vec<GpuCommand>)
        ensures
            commands@ == old(self)@.commands,
            final(self)@ == (PipelineView { commands: Seq::empty(), ..old(self)@ }),
    {
        let mut commands: Vec<GpuCommand> = Vec::new();
        std::mem::swap(&mut self.commands, &mut commands);
        commands
    }

    /// The side of the last of `levels` mip levels of an image.
    fn last_extent(extent: u32, levels: u32) -> (last: u32)
        requires
            extent >= 1,
            levels >= 1,
        ensures
            last == mip_extent(extent as int, levels - 1),
            last >= 1,
    {
        let mut last: u32 = extent;
        let mut level: u32 = 1;
        while level < levels
            invariant
                1 <= level <= levels,
                last == mip_extent(extent as int, level - 1),
                last >= 1,
            decreases levels - level,
        {
            last = if last / 2 >= 1 {
                last / 2
            } else {
                1
            };
            level += 1;
        }
        last
    }

    /// Plans the work on the GPU for one frame: the image to allocate, if
    /// the present one does not fit, and the commands to submit.
    ///
    /// A frame that cannot be processed within the limits is refused with
    /// the stage that would fail, and leaves the processor as it was. For
    /// any other frame the processor gives up an image that does not fit,
    /// until `image_allocated` reports its successor.
    pub fn plan_frame(&mut self, frame: &Object) -> (plan: Result<FramePlan, ProcessorError>)
        requires
            old(self).wf(),
            frame.wf(),
        ensures
            final(self).wf(),
            refusal(old(self)@.limits, frame@) matches Some(error) ==> plan == Err::<
                FramePlan,
                ProcessorError,
            >(error) && final(self)@ == old(self)@,
            refusal(old(self)@.limits, frame@) is None ==> (plan matches Ok(planned)
                && planned.allocate == old(self)@.image_request(frame@) && planned.commands@
                == old(self)@.frame_commands(frame@) && planned.width == final_width(
                frame@,
                old(self)@.limits.final_mip_level,
            ) && planned.height == final_height(frame@, old(self)@.limits.final_mip_level)
                && planned.width >= 1 && planned.height >= 1 && final(self)@ == (PipelineView {
                image_resolution: if planned.allocate is None {
                    old(self)@.image_resolution
                } else {
                    None
                },
                commands: Seq::empty(),
                ..old(self)@
            })),
    {
        if !frame.is_complete() || frame.num_objects() == 0 {
            return Err(ProcessorError::Import);
        }
        if frame.width() < 2 || frame.height() < 2 {
            return Err(ProcessorError::MemoryAllocation);
        }
        let levels: u32 = self.capped_mip_levels(frame);
        let width: u32 = Self::last_extent(frame.width() / 2, levels);
        let height: u32 = Self::last_extent(frame.height() / 2, levels);
        proof {
            lemma_mip_extent_stays_positive(frame@.width as int / 2, levels - 1);
            lemma_mip_extent_stays_positive(frame@.height as int / 2, levels - 1);
            assert(width * height <= 0x8000_0000 * 0x8000_0000) by (nonlinear_arith)
                requires
                    width <= 0x8000_0000,
                    height <= 0x8000_0000,
            ;
        }
        let pixels: u64 = width as u64 * height as u64;
        if pixels > self.limits.buffer_bytes / 4 {
            return Err(ProcessorError::Readback);
        }
        let allocate = self.init_image(frame);
        self.begin_commands();
        let (mip_level, mip_width, mip_height) = self.generate_mipmaps(frame);
        self.copy_mipmap(mip_level, mip_width, mip_height);
        let commands = self.submit_commands();
        Ok(FramePlan { allocate, commands, width: mip_width, height: mip_height })
    }

    /// Takes note that the image asked for by a plan has been allocated.
    pub fn image_allocated(&mut self, request: ImageRequest)
        requires
            old(self).wf(),
        ensures
            final(self).wf(),
            final(self)@ == (PipelineView {
                image_resolution: Some((request.width, request.height)),
                ..old(self)@
            }),
    {
        self.image_resolution = Some((request.width, request.height));
    }

    /// Computes the lightness percentage from the readback buffer, which
    /// holds the pixels of a mip level of the given size, 4 bytes each.
    ///
    /// A buffer that is shorter than the mip level, and a mip level
    /// without pixels, cannot be read.
    pub fn read_luma(readback: &[u8], width: u32, height: u32) -> (luma: Result<
        u8,
        ProcessorError,
    >)
        ensures
            width * height >= 1 && readback@.len() >= 4 * (width * height) ==> (luma matches Ok(
                percent,
            ) && percent == perceived_lightness(readback@, true, width * height) && percent
                <= 100),
            !(width * height >= 1 && readback@.len() >= 4 * (width * height)) ==> luma == Err::<
                u8,
                ProcessorError,
            >(ProcessorError::Readback),
    {
        assert(width * height <= 0xffff_ffff * 0xffff_ffff) by (nonlinear_arith)
            requires
                width <= 0xffff_ffff,
                height <= 0xffff_ffff,
        ;
        let pixels: u64 = width as u64 * height as u64;
        let available: usize = readback.len();
        if pixels == 0 || pixels > (available / 4) as u64 {
            return Err(ProcessorError::Readback);
        }
        Ok(compute_perceived_lightness_percent(readback, true, pixels as usize))
    }

    /// The limits the processor was built with.
    pub fn limits(&self) -> (limits: Limits)
        ensures
            limits == self@.limits,
    {
        self.limits
    }

    /// The size of the processor's image, if it has one.
    pub fn image_resolution(&self) -> (resolution: Option<(u32, u32)>)
        ensures
            resolution == self@.image_resolution,
    {
        self.image_resolution
    }
}

/// Judges the wait for the GPU after a submission: commands that were not
/// executed within the time allowed have failed, and are not submitted
/// again for this frame.
pub fn submission_outcome(signaled: bool) -> (outcome: Result<(), ProcessorError>)
    ensures
        signaled ==> outcome == Ok::<(), ProcessorError>(()),
        !signaled ==> outcome == Err::<(), ProcessorError>(ProcessorError::CommandSubmission),
{
    if signaled {
        Ok(())
    } else {
        Err(ProcessorError::CommandSubmission)
    }
}

/// The memory type for the readback buffer: the first one the host can map
/// and read without flushing.
pub fn buffer_memory_type(
    memory_req: &MemoryRequirements,
    memory_prop: &PhysicalDeviceMemoryProperties,
) -> (found: Result<u32, ProcessorError>)
    ensures
        found == match find_memory_type(
            memory_req.memory_type_bits,
            memory_prop.memory_types@,
            MEMORY_HOST_VISIBLE | MEMORY_HOST_COHERENT,
        ) {
            Some(index) => Ok::<u32, ProcessorError>(index),
            None => Err::<u32, ProcessorError>(ProcessorError::MemoryAllocation),
        },
{
    match find_memory_type_index(
        memory_req,
        memory_prop,
        MEMORY_HOST_VISIBLE | MEMORY_HOST_COHERENT,
    ) {
        Some(index) => Ok(index),
        None => Err(ProcessorError::MemoryAllocation),
    }
}

/// The memory type for the processor's image: the first one that is local
/// to the GPU.
pub fn image_memory_type(
    memory_req: &MemoryRequirements,
    memory_prop: &PhysicalDeviceMemoryProperties,
) -> (found: Result<u32, ProcessorError>)
    ensures
        found == match find_memory_type(
            memory_req.memory_type_bits,
            memory_prop.memory_types@,
            MEMORY_DEVICE_LOCAL,
        ) {
            Some(index) => Ok::<u32, ProcessorError>(index),
            None => Err::<u32, ProcessorError>(ProcessorError::MemoryAllocation),
        },
{
    match find_memory_type_index(memory_req, memory_prop, MEMORY_DEVICE_LOCAL) {
        Some(index) => Ok(index),
        None => Err(ProcessorError::MemoryAllocation),
    }
}

} // verus!
