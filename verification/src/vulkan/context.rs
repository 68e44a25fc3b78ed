use std::sync::Arc;
use vstd::prelude::*;
use vulkano::command_buffer::allocator::{
    StandardCommandBufferAllocator, StandardCommandBufferAllocatorCreateInfo,
};
use vulkano::device::{Device, Queue};
use vulkano::memory::allocator::{FreeListAllocator, GenericMemoryAllocator, StandardMemoryAllocator};

verus! {

/// vulkano's `Device`, a logical Vulkan device, carried through opaquely.
#[verifier::external_type_specification]
#[verifier::external_body]
pub struct ExDevice(Device);

/// vulkano's `Queue`, a queue of a device, carried through opaquely.
#[verifier::external_type_specification]
#[verifier::external_body]
pub struct ExQueue(Queue);

/// vulkano's `FreeListAllocator`, the suballocator of the standard memory
/// allocator, named only as its type parameter.
#[verifier::external_type_specification]
#[verifier::external_body]
pub struct ExFreeListAllocator(FreeListAllocator);

/// vulkano's `GenericMemoryAllocator`, carried through opaquely.
#[verifier::external_type_specification]
#[verifier::external_body]
#[verifier::reject_recursive_types(S)]
pub struct ExGenericMemoryAllocator<S>(GenericMemoryAllocator<S>);

/// vulkano's `StandardCommandBufferAllocator`, carried through opaquely.
#[verifier::external_type_specification]
#[verifier::external_body]
pub struct ExStandardCommandBufferAllocator(StandardCommandBufferAllocator);

/// Another handle to the value behind `a`, through `Arc::clone`: both
/// handles point at the same allocation, so they stand for the same value.
#[verifier::external_body]
fn share<T>(a: &Arc<T>) -> (r: Arc<T>)
    ensures
        r == *a,
{
    a.clone()
}

/// The device that a memory allocator allocates from: the one it was made
/// for, which vulkano keeps in it.
pub uninterp spec fn allocator_device(a: GenericMemoryAllocator<FreeListAllocator>) -> Device;

/// The device that a command buffer allocator allocates for: the one it was
/// made for, which vulkano keeps in it.
pub uninterp spec fn command_allocator_device(a: StandardCommandBufferAllocator) -> Device;

/// `StandardMemoryAllocator::new_default(device)`: a memory allocator for
/// `device` with vulkano's default block sizes. Stated: the allocator is
/// `device`'s (vulkano stores the device it is given). Its block sizes are
/// left unsaid.
#[verifier::external_body]
fn new_default_memory_allocator(device: Arc<Device>) -> (a: StandardMemoryAllocator)
    ensures
        allocator_device(a) == *device,
{
    StandardMemoryAllocator::new_default(device)
}

/// The number of primary and of secondary command buffers that a command
/// buffer allocator allocates per pool: those of the create info it was
/// made with, which vulkano keeps in it.
pub uninterp spec fn command_allocator_buffer_counts(a: StandardCommandBufferAllocator) -> (usize, usize);

/// `StandardCommandBufferAllocator::new(device, Default::default())`: a
/// command buffer allocator for `device` with the default create info.
/// Stated: the allocator is `device`'s, and it allocates 32 primary and 0
/// secondary command buffers per pool, the defaults (vulkano stores the
/// device and the create info it is given).
#[verifier::external_body]
fn new_command_buffer_allocator(device: Arc<Device>) -> (a: StandardCommandBufferAllocator)
    ensures
        command_allocator_device(a) == *device,
        command_allocator_buffer_counts(a) == (32usize, 0usize),
{
    StandardCommandBufferAllocator::new(device, StandardCommandBufferAllocatorCreateInfo::default())
}

/// The index of the queue family that a queue belongs to, which vulkano
/// keeps in the queue.
pub uninterp spec fn queue_family_of(q: Queue) -> u32;

/// The device that a queue belongs to, which vulkano keeps in the queue.
pub uninterp spec fn queue_device_of(q: Queue) -> Device;

/// `Queue::queue_family_index`: the family the queue belongs to.
#[verifier::external_body]
fn queue_family_index(q: &Queue) -> (r: u32)
    ensures
        r == queue_family_of(*q),
{
    q.queue_family_index()
}

/// `Queue::device`, shared: the device the queue belongs to.
#[verifier::external_body]
fn queue_device(q: &Queue) -> (d: Arc<Device>)
    ensures
        *d == queue_device_of(*q),
{
    q.device().clone()
}

/// A shared memory allocator for `device`, with the default block sizes.
pub fn create_memory_allocator(device: Arc<Device>) -> (a: Arc<GenericMemoryAllocator<FreeListAllocator>>)
    ensures
        allocator_device(*a) == *device,
{
    Arc::new(new_default_memory_allocator(device))
}

/// A command buffer allocator for `device`, with the default pool sizes:
/// 32 primary and 0 secondary command buffers per pool.
pub fn create_command_buffer_allocator(device: Arc<Device>) -> (a: StandardCommandBufferAllocator)
    ensures
        command_allocator_device(a) == *device,
        command_allocator_buffer_counts(a) == (32usize, 0usize),
{
    new_command_buffer_allocator(device)
}

/// The device, queue and allocators that the renderer submits work with.
/// The queue belongs to the device and to the family the context names, and
/// both allocators are the device's.
pub struct VulkanoContext {
    device: Arc<Device>,
    queue_family_index: u32,
    queue: Arc<Queue>,
    memory_allocator: Arc<GenericMemoryAllocator<FreeListAllocator>>,
    command_buffer_allocator: Arc<StandardCommandBufferAllocator>,
}

impl VulkanoContext {
    /// The parts agree: the queue is of the context's family and device,
    /// and the allocators are the device's, the command buffer allocator
    /// with the default pool sizes.
    #[verifier::type_invariant]
    spec fn consistent(self) -> bool {
        &&& queue_family_of(*self.queue) == self.queue_family_index
        &&& queue_device_of(*self.queue) == *self.device
        &&& allocator_device(*self.memory_allocator) == *self.device
        &&& command_allocator_device(*self.command_buffer_allocator) == *self.device
        &&& command_allocator_buffer_counts(*self.command_buffer_allocator) == (32usize, 0usize)
    }

    /// The device.
    pub closed spec fn device(&self) -> Arc<Device> {
        self.device
    }

    /// The index of the queue family that the queue belongs to.
    pub closed spec fn queue_family_index(&self) -> u32 {
        self.queue_family_index
    }

    /// The queue that work is submitted to.
    pub closed spec fn queue(&self) -> Arc<Queue> {
        self.queue
    }

    /// The memory allocator.
    pub closed spec fn memory_allocator(&self) -> Arc<GenericMemoryAllocator<FreeListAllocator>> {
        self.memory_allocator
    }

    /// The command buffer allocator.
    pub closed spec fn command_buffer_allocator(&self) -> Arc<StandardCommandBufferAllocator> {
        self.command_buffer_allocator
    }

    /// A context for `device` and its `queue`, which belongs to `device` and
    /// to family `queue_family_index`, with a fresh memory allocator and
    /// command buffer allocator for `device`.
    pub fn with_device_and_queue(device: Arc<Device>, queue_family_index: u32, queue: Arc<Queue>) -> (cx: Self)
        requires
            queue_family_of(*queue) == queue_family_index,
            queue_device_of(*queue) == *device,
        ensures
            cx.device() == device,
            cx.queue_family_index() == queue_family_index,
            cx.queue() == queue,
            allocator_device(*cx.memory_allocator()) == *device,
            command_allocator_device(*cx.command_buffer_allocator()) == *device,
            command_allocator_buffer_counts(*cx.command_buffer_allocator()) == (32usize, 0usize),
    {
        let memory_allocator = create_memory_allocator(share(&device));
        let command_buffer_allocator = create_command_buffer_allocator(share(&device));
        VulkanoContext {
            device,
            queue_family_index,
            queue,
            memory_allocator,
            command_buffer_allocator: Arc::new(command_buffer_allocator),
        }
    }

    /// A context for `queue`, with the device and family that the queue
    /// belongs to, and fresh allocators for that device.
    pub fn with_queue(queue: Arc<Queue>) -> (cx: Self)
        ensures
            cx.queue() == queue,
            *cx.device() == queue_device_of(*queue),
            cx.queue_family_index() == queue_family_of(*queue),
            allocator_device(*cx.memory_allocator()) == queue_device_of(*queue),
            command_allocator_device(*cx.command_buffer_allocator()) == queue_device_of(*queue),
            command_allocator_buffer_counts(*cx.command_buffer_allocator()) == (32usize, 0usize),
    {
        let device = queue_device(&queue);
        let queue_family_index = queue_family_index(&queue);
        Self::with_device_and_queue(device, queue_family_index, queue)
    }

    /// The device, which the queue and both allocators belong to.
    pub fn get_device(&self) -> (d: Arc<Device>)
        ensures
            d == self.device(),
            queue_device_of(*self.queue()) == *d,
            allocator_device(*self.memory_allocator()) == *d,
            command_allocator_device(*self.command_buffer_allocator()) == *d,
    {
        proof {
            use_type_invariant(self);
        }
        share(&self.device)
    }

    /// The queue that work is submitted to, of the context's family and
    /// device.
    pub fn get_queue(&self) -> (q: Arc<Queue>)
        ensures
            q == self.queue(),
            queue_family_of(*q) == self.queue_family_index(),
            queue_device_of(*q) == *self.device(),
    {
        proof {
            use_type_invariant(self);
        }
        share(&self.queue)
    }

    /// The index of the queue's family.
    pub fn get_queue_family_index(&self) -> (i: u32)
        ensures
            i == self.queue_family_index(),
            i == queue_family_of(*self.queue()),
    {
        proof {
            use_type_invariant(self);
        }
        self.queue_family_index
    }

    /// The memory allocator, the device's.
    pub fn get_memory_allocator(&self) -> (a: Arc<GenericMemoryAllocator<FreeListAllocator>>)
        ensures
            a == self.memory_allocator(),
            allocator_device(*a) == *self.device(),
    {
        proof {
            use_type_invariant(self);
        }
        share(&self.memory_allocator)
    }

    /// The command buffer allocator, the device's, with the default pool
    /// sizes.
    pub fn get_command_buffer_allocator(&self) -> (a: Arc<StandardCommandBufferAllocator>)
        ensures
            a == self.command_buffer_allocator(),
            command_allocator_device(*a) == *self.device(),
            command_allocator_buffer_counts(*a) == (32usize, 0usize),
    {
        proof {
            use_type_invariant(self);
        }
        share(&self.command_buffer_allocator)
    }
}

impl Clone for VulkanoContext {
    /// Another context with the same device, queue and allocators.
    fn clone(&self) -> (c: Self)
        ensures
            c == *self,
    {
        proof {
            use_type_invariant(self);
        }
        VulkanoContext {
            device: share(&self.device),
            queue_family_index: self.queue_family_index,
            queue: share(&self.queue),
            memory_allocator: share(&self.memory_allocator),
            command_buffer_allocator: share(&self.command_buffer_allocator),
        }
    }
}

} // verus!
