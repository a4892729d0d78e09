//! The module manager: holds the selectable processing modules, tracks
//! which one is current, and carries the shared usage estimate between the
//! driver that writes it and the display that reads it.

use vstd::prelude::*;

use crate::dsp::CpuUsagePublisher;
use crate::dsp_module::DSPModule;

verus! {

pub struct AudioAppManager<M: DSPModule> {
    modules: Vec<M>,
    current_module_index: usize,
    cpu_usage: CpuUsagePublisher,
}

impl<M: DSPModule> AudioAppManager<M> {
    pub closed spec fn spec_modules(self) -> Seq<M> {
        self.modules@
    }

    pub closed spec fn spec_current(self) -> int {
        self.current_module_index as int
    }

    pub closed spec fn spec_cpu_usage(self) -> u64 {
        self.cpu_usage.spec_value()
    }

    /// The selection always points at a module, except when there are none
    /// at all (then it stays at the start).
    pub open spec fn wf(self) -> bool {
        self.spec_current() < self.spec_modules().len() || self.spec_current() == 0
    }

    pub fn new(modules: Vec<M>) -> (r: AudioAppManager<M>)
        ensures
            r.wf(),
            r.spec_modules() == modules@,
            r.spec_current() == 0,
            r.spec_cpu_usage() == 0,
    {
        AudioAppManager { modules, current_module_index: 0, cpu_usage: CpuUsagePublisher::new() }
    }

    /// Selects another module. An index past the end changes nothing.
    pub fn switch_module(&mut self, index: usize)
        requires
            old(self).wf(),
        ensures
            final(self).wf(),
            final(self).spec_modules() == old(self).spec_modules(),
            final(self).spec_cpu_usage() == old(self).spec_cpu_usage(),
            index < old(self).spec_modules().len() ==> final(self).spec_current() == index,
            index >= old(self).spec_modules().len() ==> final(self).spec_current() == old(
                self,
            ).spec_current(),
    {
        if index >= self.modules.len() {
            return ;
        }
        self.current_module_index = index;
    }

    pub fn current_module_index(&self) -> (r: usize)
        ensures
            r == self.spec_current(),
    {
        self.current_module_index
    }

    pub fn module_count(&self) -> (r: usize)
        ensures
            r == self.spec_modules().len(),
    {
        self.modules.len()
    }

    /// The module the selection points at, if any exists.
    pub fn current_module(&self) -> (r: Option<&M>)
        requires
            self.wf(),
        ensures
            self.spec_modules().len() > 0 ==> r == Some(
                &self.spec_modules()[self.spec_current()],
            ),
            self.spec_modules().len() == 0 ==> r is None,
    {
        if self.current_module_index < self.modules.len() {
            Some(&self.modules[self.current_module_index])
        } else {
            None
        }
    }

    /// Driver side: publishes a fresh usage estimate.
    pub fn publish_cpu_usage(&mut self, value: u64)
        requires
            old(self).wf(),
        ensures
            final(self).wf(),
            final(self).spec_modules() == old(self).spec_modules(),
            final(self).spec_current() == old(self).spec_current(),
            final(self).spec_cpu_usage() == value,
    {
        self.cpu_usage.publish(value);
    }

    /// Observer side: the last published estimate, in hundredths of a
    /// percent.
    pub fn read_cpu_usage(&self) -> (r: u64)
        ensures
            r == self.spec_cpu_usage(),
    {
        self.cpu_usage.read()
    }
}

} // verus!
