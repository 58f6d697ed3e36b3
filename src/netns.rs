//! The two resources an inspection holds: a filesystem binding of a process's
//! network namespace, and the switch of the calling thread into a namespace.
//!
//! Both are kept as state machines. The caller performs each action they
//! hand out and reports nothing back: what to undo is decided from what was
//! created, never from what happens to exist.
use vstd::prelude::*;

verus! {

/// A filesystem change made for a binding, or undone when it is released.
#[derive(Debug, PartialEq, Eq, Clone, Copy, Structural)]
pub enum BindAction {
    /// Create the directory that holds the bindings.
    CreateDir,
    /// Link the binding to the process's namespace file.
    CreateLink,
    /// Remove the link made by `CreateLink`.
    RemoveLink,
    /// Remove the directory made by `CreateDir`.
    RemoveDir,
}

/// The binding of the network namespace of process `pid`.
#[derive(Debug, PartialEq, Eq, Clone, Copy, Structural)]
pub struct NamespaceBinding {
    pub pid: i32,
    /// This binding created the directory.
    pub created_dir: bool,
    /// This binding created the link.
    pub created_link: bool,
    pub released: bool,
}

/// The actions that undo what a binding created, the link before its directory.
pub open spec fn undo_actions(b: NamespaceBinding) -> Seq<BindAction> {
    if b.released {
        seq![]
    } else {
        (if b.created_link {
            seq![BindAction::RemoveLink]
        } else {
            seq![]
        }) + (if b.created_dir {
            seq![BindAction::RemoveDir]
        } else {
            seq![]
        })
    }
}

impl NamespaceBinding {
    /// Binds the namespace of `pid`, creating the directory and the link only
    /// where they do not exist yet; an existing link is reused.
    pub fn bind(pid: i32, dir_exists: bool, link_exists: bool) -> (r: (NamespaceBinding, Vec<BindAction>))
        ensures
            r.0 == (NamespaceBinding {
                pid,
                created_dir: !dir_exists,
                created_link: !link_exists,
                released: false,
            }),
            r.1@ == (if dir_exists {
                seq![]
            } else {
                seq![BindAction::CreateDir]
            }) + (if link_exists {
                seq![]
            } else {
                seq![BindAction::CreateLink]
            }),
    {
        let mut actions: Vec<BindAction> = Vec::new();
        if !dir_exists {
            actions.push(BindAction::CreateDir);
        }
        if !link_exists {
            actions.push(BindAction::CreateLink);
        }
        let b = NamespaceBinding {
            pid,
            created_dir: !dir_exists,
            created_link: !link_exists,
            released: false,
        };
        assert(actions@ =~= (if dir_exists {
            seq![]
        } else {
            seq![BindAction::CreateDir]
        }) + (if link_exists {
            seq![]
        } else {
            seq![BindAction::CreateLink]
        }));
        (b, actions)
    }

    /// Releases the binding: hands out the actions that undo what it created,
    /// and none once it has been released.
    pub fn release(&mut self) -> (r: Vec<BindAction>)
        ensures
            r@ == undo_actions(*old(self)),
            *final(self) == (NamespaceBinding { released: true, ..*old(self) }),
    {
        let mut actions: Vec<BindAction> = Vec::new();
        if !self.released {
            if self.created_link {
                actions.push(BindAction::RemoveLink);
            }
            if self.created_dir {
                actions.push(BindAction::RemoveDir);
            }
        }
        self.released = true;
        assert(actions@ =~= undo_actions(*old(self)));
        actions
    }
}

/// Releasing a binding a second time hands out no action and leaves it as it was.
pub proof fn lemma_release_idempotent(b: NamespaceBinding)
    ensures
        undo_actions(NamespaceBinding { released: true, ..b }) == Seq::<BindAction>::empty(),
        (NamespaceBinding { released: true, ..NamespaceBinding { released: true, ..b } })
            == (NamespaceBinding { released: true, ..b }),
{
}

/// Releasing never undoes what the binding did not create.
pub proof fn lemma_release_only_created(b: NamespaceBinding)
    ensures
        undo_actions(b).contains(BindAction::RemoveLink) ==> b.created_link,
        undo_actions(b).contains(BindAction::RemoveDir) ==> b.created_dir,
{
    if undo_actions(b).contains(BindAction::RemoveLink) {
        let i = choose|i: int| 0 <= i < undo_actions(b).len() && undo_actions(b)[i] == BindAction::RemoveLink;
        assert(i == 0 || i == 1);
    }
    if undo_actions(b).contains(BindAction::RemoveDir) {
        let i = choose|i: int| 0 <= i < undo_actions(b).len() && undo_actions(b)[i] == BindAction::RemoveDir;
        assert(i == 0 || i == 1);
    }
}

/// The network namespace a thread is in, and the one to go back to while it
/// is switched. Namespaces are told apart by their inode number.
#[derive(Debug, PartialEq, Eq, Clone, Copy, Structural)]
pub struct NamespaceSwitch {
    pub active: u64,
    pub saved: Option<u64>,
}

/// A second switch while one is active.
#[derive(Debug, PartialEq, Eq, Clone, Copy, Structural)]
pub struct SwitchActive(pub u64);

pub open spec fn entered(s: NamespaceSwitch, target: u64) -> NamespaceSwitch {
    if s.saved is None {
        NamespaceSwitch { active: target, saved: Some(s.active) }
    } else {
        s
    }
}

pub open spec fn restored(s: NamespaceSwitch) -> NamespaceSwitch {
    match s.saved {
        Some(v) => NamespaceSwitch { active: v, saved: None },
        None => s,
    }
}

impl NamespaceSwitch {
    /// A thread in namespace `active`, not switched.
    pub fn new(active: u64) -> (r: NamespaceSwitch)
        ensures
            r == (NamespaceSwitch { active, saved: None }),
    {
        NamespaceSwitch { active, saved: None }
    }

    /// Switches into `target`, saving the namespace to go back to; refused
    /// while another switch is active.
    pub fn enter(&mut self, target: u64) -> (r: Result<(), SwitchActive>)
        ensures
            *final(self) == entered(*old(self), target),
            r is Ok <==> old(self).saved is None,
            r is Err ==> r == Err::<(), SwitchActive>(SwitchActive(old(self).active)),
    {
        match self.saved {
            Some(_) => Err(SwitchActive(self.active)),
            None => {
                self.saved = Some(self.active);
                self.active = target;
                Ok(())
            },
        }
    }

    /// Goes back to the saved namespace, which it returns; nothing to do when
    /// no switch is active.
    pub fn restore(&mut self) -> (r: Option<u64>)
        ensures
            r == old(self).saved,
            *final(self) == restored(*old(self)),
    {
        match self.saved {
            Some(s) => {
                self.active = s;
                self.saved = None;
                Some(s)
            },
            None => None,
        }
    }
}

/// Whatever the work between switching in and restoring did, and however it
/// ended, restoring leaves the thread in the namespace it was in before, with
/// no switch active; restoring again changes nothing.
pub proof fn lemma_restore_returns_to_start(start: u64, target: u64)
    ensures
        restored(entered(NamespaceSwitch { active: start, saved: None }, target)) == (
        NamespaceSwitch { active: start, saved: None }),
        restored(restored(entered(NamespaceSwitch { active: start, saved: None }, target)))
            == restored(entered(NamespaceSwitch { active: start, saved: None }, target)),
{
}

} // verus!
