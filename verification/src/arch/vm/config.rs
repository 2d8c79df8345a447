//! Configuration of the machine.
use crate::arch::vm::complex::VmChipComplex;
use crate::arch::vm::control::{InstructionExecutor, NoExecutors};
use crate::arch::vm::exe::Program;
use crate::field::PrimeField32;
use crate::system::memory::AddressMap;
use vstd::prelude::*;

verus! {

/// How large the address spaces are.
#[derive(Debug)]
pub struct MemoryConfig {
    /// The number of cells of each address space.
    pub addr_space_sizes: Vec<usize>,
}

impl Clone for MemoryConfig {
    fn clone(&self) -> (r: Self)
        ensures
            r.addr_space_sizes@ == self.addr_space_sizes@,
    {
        let addr_space_sizes = self.addr_space_sizes.clone();
        assert(addr_space_sizes@ =~= self.addr_space_sizes@);
        MemoryConfig { addr_space_sizes }
    }
}

/// When to start another segment.
#[derive(Clone, Copy, Debug, PartialEq, Eq, Structural)]
pub struct SegmentationLimits {
    pub max_trace_height: usize,
    pub max_cells: usize,
}

/// Configuration of the parts that every machine has.
#[derive(Debug)]
pub struct SystemConfig {
    /// A program may run over several segments.
    pub continuation_enabled: bool,
    /// Instructions keep their debug information.
    pub profiling: bool,
    pub num_public_values: usize,
    pub memory_config: MemoryConfig,
    pub segmentation_limits: SegmentationLimits,
}

impl SystemConfig {
    /// The configurations are the same.
    pub open spec fn same(&self, other: &Self) -> bool {
        &&& self.continuation_enabled == other.continuation_enabled
        &&& self.profiling == other.profiling
        &&& self.num_public_values == other.num_public_values
        &&& self.memory_config.addr_space_sizes@ == other.memory_config.addr_space_sizes@
        &&& self.segmentation_limits == other.segmentation_limits
    }

    pub open spec fn spec_has_public_values_chip(&self) -> bool {
        !self.continuation_enabled && self.num_public_values > 0
    }

    /// Public values have a chip of their own unless they live in memory.
    pub fn has_public_values_chip(&self) -> (r: bool)
        ensures
            r == self.spec_has_public_values_chip(),
    {
        !self.continuation_enabled && self.num_public_values > 0
    }
}

impl Clone for SystemConfig {
    fn clone(&self) -> (r: Self)
        ensures
            r.same(self),
    {
        SystemConfig {
            continuation_enabled: self.continuation_enabled,
            profiling: self.profiling,
            num_public_values: self.num_public_values,
            memory_config: self.memory_config.clone(),
            segmentation_limits: self.segmentation_limits,
        }
    }
}

/// Why no chips can be made of a configuration.
#[derive(Clone, Copy, Debug, PartialEq, Eq, Structural)]
pub enum VmInventoryError {
    /// An opcode has two executors.
    ExecutorExists,
    /// A chip was not found.
    ChipNotFound,
}

/// The configuration of a machine with all its extensions.
pub trait VmConfig<F: PrimeField32>: Sized {
    /// What executes the instructions.
    type Executor: InstructionExecutor<F>;

    spec fn spec_system(&self) -> SystemConfig;

    fn system(&self) -> (r: &SystemConfig)
        ensures
            *r == self.spec_system(),
    ;

    /// `r` may come of making the chips.
    spec fn creates(
        &self,
        r: Result<VmChipComplex<F, Self::Executor>, VmInventoryError>,
    ) -> bool;

    /// Makes the chips.
    fn create_chip_complex(&self) -> (r: Result<VmChipComplex<F, Self::Executor>, VmInventoryError>)
        ensures
            self.creates(r),
            r matches Ok(c) ==> c.config.same(&self.spec_system()),
    ;
}

impl<F: PrimeField32> VmConfig<F> for SystemConfig {
    type Executor = NoExecutors;

    open spec fn spec_system(&self) -> SystemConfig {
        *self
    }

    fn system(&self) -> (r: &SystemConfig) {
        self
    }

    /// A machine without extensions: no executors, no adapters, memory of zeros.
    open spec fn creates(
        &self,
        r: Result<VmChipComplex<F, NoExecutors>, VmInventoryError>,
    ) -> bool {
        r matches Ok(c) && {
            &&& c.config.same(self)
            &&& c.program.is_empty()
            &&& c.initial_memory is None
            &&& c.memory.has_sizes(self.memory_config.addr_space_sizes@)
            &&& c.memory_num_airs == (if self.continuation_enabled {
                2int
            } else {
                1
            })
            &&& c.num_access_adapters == 0
            &&& c.adapter_heights@.len() == 0
            &&& c.insertion_order@.len() == 0
            &&& c.executor_heights@.len() == 0
            &&& c.overridden_system is None
            &&& c.overridden_inventory is None
            &&& c.begin is None
            &&& c.end is None
        }
    }

    fn create_chip_complex(&self) -> (r: Result<VmChipComplex<F, NoExecutors>, VmInventoryError>) {
        Ok(
            VmChipComplex {
                config: self.clone(),
                program: Program::empty(),
                initial_memory: None,
                memory: AddressMap::new(&self.memory_config.addr_space_sizes),
                memory_num_airs: if self.continuation_enabled {
                    2
                } else {
                    1
                },
                num_access_adapters: 0,
                adapter_heights: Vec::new(),
                insertion_order: Vec::new(),
                executor_heights: Vec::new(),
                overridden_system: None,
                overridden_inventory: None,
                begin: None,
                end: None,
                executors: NoExecutors,
            },
        )
    }
}

} // verus!
