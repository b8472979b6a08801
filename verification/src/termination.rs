//! Whether the program was asked to stop, and which child process is running.

use vstd::prelude::*;

verus! {

/// A request to stop, and the process to pass it on to.
#[derive(Debug)]
pub struct Termination {
    requested: bool,
    child_process_id: u32,
}

impl Termination {
    /// Whether a stop was asked for.
    pub closed spec fn requested(self) -> bool {
        self.requested
    }

    /// The child process that is running. No process has the number zero.
    pub closed spec fn child(self) -> Option<u32> {
        if self.child_process_id == 0 {
            None
        } else {
            Some(self.child_process_id)
        }
    }

    /// Nothing asked for, and no child.
    pub fn new() -> (termination: Termination)
        ensures
            !termination.requested(),
            termination.child() is None,
    {
        Termination { requested: false, child_process_id: 0 }
    }

    /// Asks for a stop. This cannot be taken back.
    pub fn request(&mut self)
        ensures
            final(self).requested(),
            final(self).child() == old(self).child(),
    {
        self.requested = true;
    }

    /// Asks for a stop, and gives the child process to which it is to be passed on.
    pub fn stop(&mut self) -> (child: Option<u32>)
        ensures
            final(self).requested(),
            final(self).child() == old(self).child(),
            child == old(self).child(),
    {
        self.request();
        self.child_process_id()
    }

    /// Whether a stop was asked for.
    pub fn is_requested(&self) -> (requested: bool)
        ensures
            requested == self.requested(),
    {
        self.requested
    }

    /// Notes the child process. The number zero stands for none.
    pub fn set_child_process_id(&mut self, process_id: u32)
        ensures
            final(self).requested() == old(self).requested(),
            final(self).child() == (if process_id == 0 {
                None::<u32>
            } else {
                Some(process_id)
            }),
    {
        self.child_process_id = process_id;
    }

    /// Notes that the child process is gone.
    pub fn clear_child_process_id(&mut self)
        ensures
            final(self).requested() == old(self).requested(),
            final(self).child() is None,
    {
        self.child_process_id = 0;
    }

    /// The child process that is running.
    pub fn child_process_id(&self) -> (process_id: Option<u32>)
        ensures
            process_id == self.child(),
    {
        if self.child_process_id == 0 {
            None
        } else {
            Some(self.child_process_id)
        }
    }
}

impl Default for Termination {
    fn default() -> (termination: Termination)
        ensures
            !termination.requested(),
            termination.child() is None,
    {
        Termination::new()
    }
}

/// What is noted is what is told: a stop once it was asked for, by either way of asking,
/// and the child from when it is set until it is cleared. Neither changes the other.
pub proof fn notes_are_told(
    fresh: Termination,
    usual: Termination,
    termination: Termination,
    requested: bool,
    child: Option<u32>,
    process_id: u32,
    passed_on: Option<u32>,
)
    requires
        call_ensures(Termination::new, (), fresh),
        call_ensures(<Termination as Default>::default, (), usual),
        call_ensures(Termination::is_requested, (&termination,), requested),
        call_ensures(Termination::child_process_id, (&termination,), child),
    ensures
        !fresh.requested(),
        fresh.child() is None,
        !usual.requested(),
        usual.child() is None,
        requested == termination.requested(),
        child == termination.child(),
        forall|noted: &mut Termination| #[trigger]
            call_ensures(Termination::request, (noted,), ()) ==> {
                &&& final(noted).requested()
                &&& final(noted).child() == (*noted).child()
            },
        forall|noted: &mut Termination| #[trigger]
            call_ensures(Termination::stop, (noted,), passed_on) ==> {
                &&& final(noted).requested()
                &&& final(noted).child() == (*noted).child()
                &&& passed_on == (*noted).child()
            },
        forall|noted: &mut Termination| #[trigger]
            call_ensures(Termination::set_child_process_id, (noted, process_id), ()) ==> {
                &&& final(noted).requested() == (*noted).requested()
                &&& process_id > 0 ==> final(noted).child() == Some(process_id)
                &&& process_id == 0 ==> final(noted).child() is None
            },
        forall|noted: &mut Termination| #[trigger]
            call_ensures(Termination::clear_child_process_id, (noted,), ()) ==> {
                &&& final(noted).requested() == (*noted).requested()
                &&& final(noted).child() is None
            },
{
}

} // verus!
