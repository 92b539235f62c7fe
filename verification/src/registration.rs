//! Which window shortcut is registered with the system, and under which id.
//!
//! A replacement is registered before the old shortcut is released, so a
//! failed change leaves the old shortcut working. Registering and releasing
//! are the caller's closures (the system calls belong to the window thread).

use vstd::prelude::*;

use crate::hotkey::{label_spec, Hotkey};
use crate::text::push_str;

verus! {

pub const HOTKEY_ID_A: i32 = 1;

pub const HOTKEY_ID_B: i32 = 2;

/// The registered shortcut: its selection, its id, and whether it is
/// released for a while (during shortcut recording).
#[derive(Debug, Clone, Copy, PartialEq, Eq, Structural)]
pub struct Registered {
    pub selection: Hotkey,
    pub id: i32,
    pub suspended: bool,
}

/// What holds the registration of the window shortcut.
pub struct HotkeyRegistry {
    pub registered: Option<Registered>,
}

/// What `apply` and `resume` report: the shortcut now active and the error
/// to show, if any.
pub type HotkeyReport = (Hotkey, Option<String>);

pub open spec fn report_view(r: (Hotkey, Option<String>)) -> (Hotkey, Option<Seq<char>>) {
    (
        r.0,
        match r.1 {
            Some(e) => Some(e@),
            None => None,
        },
    )
}

/// Resuming a released registration; `restore` is the outcome of
/// registering it again (used only when it was released).
pub open spec fn resume_spec(reg: Option<Registered>, restore: Result<(), Seq<char>>) -> (
    Option<Registered>,
    (Hotkey, Option<Seq<char>>),
) {
    match reg {
        None => (None, (Hotkey::Disabled, None)),
        Some(e) => if !e.suspended {
            (reg, (e.selection, None))
        } else {
            match restore {
                Ok(()) => (Some(Registered { suspended: false, ..e }), (e.selection, None)),
                Err(err) => (
                    None,
                    (Hotkey::Disabled, Some(label_spec(e.selection) + " 恢复失败："@ + err)),
                ),
            }
        },
    }
}

/// The id a replacement is registered under: the one the current
/// registration does not use.
pub open spec fn next_id(reg: Option<Registered>) -> i32 {
    match reg {
        Some(e) => if e.id == HOTKEY_ID_A {
            HOTKEY_ID_B
        } else {
            HOTKEY_ID_A
        },
        None => HOTKEY_ID_A,
    }
}

/// Applying a requested shortcut, given the outcome of registering the
/// replacement (`fresh`) and of registering the old one again (`restore`).
pub open spec fn apply_spec(
    reg: Option<Registered>,
    requested: Hotkey,
    fresh: Result<(), Seq<char>>,
    restore: Result<(), Seq<char>>,
) -> (Option<Registered>, (Hotkey, Option<Seq<char>>)) {
    if reg is Some && reg->0.selection == requested {
        resume_spec(reg, restore)
    } else if requested == Hotkey::Disabled {
        (None, (Hotkey::Disabled, None))
    } else {
        match fresh {
            Ok(()) => (
                Some(Registered { selection: requested, id: next_id(reg), suspended: false }),
                (requested, None),
            ),
            Err(err) => {
                let (after, (active, restore_error)) = resume_spec(reg, restore);
                (
                    after,
                    (
                        active,
                        Some(
                            match restore_error {
                                Some(re) => label_spec(requested) + " 注册失败："@ + err + "；"@
                                    + re,
                                None => label_spec(requested) + " 注册失败："@ + err,
                            },
                        ),
                    ),
                )
            },
        }
    }
}

/// The registration stays registered, not released.
pub open spec fn is_live(reg: Option<Registered>) -> bool {
    reg is Some && !reg->0.suspended
}

pub open spec fn text_result(r: Result<(), String>) -> Result<(), Seq<char>> {
    match r {
        Ok(()) => Ok(()),
        Err(e) => Err(e@),
    }
}

fn text(s: &str) -> (r: String)
    ensures
        r@ == s@,
{
    let mut t = String::new();
    push_str(&mut t, s);
    assert(t@ =~= s@);
    t
}

impl HotkeyRegistry {
    pub fn new() -> (r: HotkeyRegistry)
        ensures
            r.registered is None,
    {
        HotkeyRegistry { registered: None }
    }

    /// Registers the released shortcut again. `register` is called only
    /// when the registration was released; its outcome is returned beside
    /// the report (`Ok` when it was not called).
    fn resume_locked<R: FnOnce(i32, Hotkey) -> Result<(), String>>(&mut self, register: R) -> (r: (
        HotkeyReport,
        Ghost<Result<(), String>>,
    ))
        requires
            forall|id: i32, h: Hotkey| call_requires(register, (id, h)),
        ensures
            (is_live(old(self).registered) || old(self).registered is None) ==> r.1@ == Ok::<
                (),
                String,
            >(()),
            (old(self).registered is Some && old(self).registered->0.suspended) ==> call_ensures(
                register,
                (old(self).registered->0.id, old(self).registered->0.selection),
                r.1@,
            ),
            (final(self).registered, report_view(r.0)) == resume_spec(
                old(self).registered,
                text_result(r.1@),
            ),
    {
        let entry = match self.registered {
            None => {
                return ((Hotkey::Disabled, None), Ghost(Ok(())));
            },
            Some(e) => e,
        };
        if !entry.suspended {
            return ((entry.selection, None), Ghost(Ok(())));
        }
        let res = register(entry.id, entry.selection);
        let ghost outcome = res;
        match res {
            Ok(()) => {
                self.registered = Some(Registered { suspended: false, ..entry });
                ((entry.selection, None), Ghost(outcome))
            },
            Err(error) => {
                self.registered = None;
                let mut message = entry.selection.label();
                push_str(&mut message, " 恢复失败：");
                push_str(&mut message, error.as_str());
                assert(message@ =~= label_spec(entry.selection) + " 恢复失败："@ + error@);
                ((Hotkey::Disabled, Some(message)), Ghost(outcome))
            },
        }
    }

    /// Applies a requested shortcut. A new shortcut is registered (with
    /// `register_new`, under the id the current one does not use) before the
    /// current one is released (with `unregister`); if registering fails,
    /// the current registration is kept, and resumed (with `register_old`)
    /// if it was released.
    pub fn apply<
        N: FnOnce(i32, Hotkey) -> Result<(), String>,
        O: FnOnce(i32, Hotkey) -> Result<(), String>,
        U: FnOnce(i32) -> Result<(), String>,
    >(&mut self, requested: Hotkey, register_new: N, register_old: O, unregister: U) -> (r:
        HotkeyReport)
        requires
            forall|id: i32, h: Hotkey| call_requires(register_new, (id, h)),
            forall|id: i32, h: Hotkey| call_requires(register_old, (id, h)),
            forall|id: i32| call_requires(unregister, (id,)),
        ensures
            ({
                let reg = old(self).registered;
                let replaced = Some(
                    Registered { selection: requested, id: next_id(reg), suspended: false },
                );
                is_live(reg) && reg->0.selection != requested && (requested == Hotkey::Disabled
                    || final(self).registered == replaced) ==> exists|released: Result<(), String>|
                    #![trigger call_ensures(unregister, (reg->0.id,), released)]
                    call_ensures(unregister, (reg->0.id,), released)
            }),
            exists|fresh: Result<(), String>, restore: Result<(), String>|
                #![trigger text_result(fresh), text_result(restore)]
                {
                    let reg = old(self).registered;
                    let same = reg is Some && reg->0.selection == requested;
                    let fresh_called = !same && requested != Hotkey::Disabled;
                    &&& (fresh_called ==> call_ensures(
                        register_new,
                        (next_id(reg), requested),
                        fresh,
                    ))
                    &&& (final(self).registered, report_view(r)) == apply_spec(
                        reg,
                        requested,
                        text_result(fresh),
                        text_result(restore),
                    )
                    &&& (reg is Some && reg->0.suspended && (reg->0.selection == requested || (
                    fresh_called && fresh is Err))) ==> call_ensures(
                        register_old,
                        (reg->0.id, reg->0.selection),
                        restore,
                    )
                },
    {
        let old = self.registered;
        if let Some(e) = old {
            if e.selection == requested {
                let (r, Ghost(restore)) = self.resume_locked(register_old);
                return r;
            }
        }
        if requested == Hotkey::Disabled {
            if let Some(e) = old {
                if !e.suspended {
                    let _ = unregister(e.id);
                }
            }
            self.registered = None;
            let r = (Hotkey::Disabled, None);
            assert((self.registered, report_view(r)) == apply_spec(
                old,
                requested,
                text_result(Ok::<(), String>(())),
                text_result(Ok::<(), String>(())),
            ));
            return r;
        }
        let id = match old {
            Some(e) => if e.id == HOTKEY_ID_A {
                HOTKEY_ID_B
            } else {
                HOTKEY_ID_A
            },
            None => HOTKEY_ID_A,
        };
        let fresh = register_new(id, requested);
        let ghost fresh_outcome = fresh;
        match fresh {
            Ok(()) => {
                if let Some(e) = old {
                    if !e.suspended {
                        let _ = unregister(e.id);
                    }
                }
                self.registered = Some(Registered { selection: requested, id, suspended: false });
                let r = (requested, None);
                assert((self.registered, report_view(r)) == apply_spec(
                    old,
                    requested,
                    text_result(fresh_outcome),
                    text_result(Ok::<(), String>(())),
                ));
                r
            },
            Err(error) => {
                let ((active, restore_error), Ghost(restore)) = self.resume_locked(register_old);
                let mut message = requested.label();
                push_str(&mut message, " 注册失败：");
                push_str(&mut message, error.as_str());
                match &restore_error {
                    Some(re) => {
                        push_str(&mut message, "；");
                        push_str(&mut message, re.as_str());
                    },
                    None => {},
                }
                let r = (active, Some(message));
                assert(message@ =~= match report_view((active, restore_error)).1 {
                    Some(re) => label_spec(requested) + " 注册失败："@ + error@ + "；"@ + re,
                    None => label_spec(requested) + " 注册失败："@ + error@,
                });
                assert((self.registered, report_view(r)) == apply_spec(
                    old,
                    requested,
                    text_result(fresh_outcome),
                    text_result(restore),
                ));
                r
            },
        }
    }

    /// Releases the shortcut for a while (while a new one is recorded).
    pub fn suspend<U: FnOnce(i32) -> Result<(), String>>(&mut self, unregister: U) -> (r: Result<
        (),
        String,
    >)
        requires
            forall|id: i32| call_requires(unregister, (id,)),
        ensures
            !is_live(old(self).registered) ==> r is Ok && final(self).registered == old(
                self,
            ).registered,
            is_live(old(self).registered) ==> call_ensures(
                unregister,
                (old(self).registered->0.id,),
                r,
            ) && final(self).registered == match r {
                Ok(()) => Some(Registered { suspended: true, ..old(self).registered->0 }),
                Err(_) => old(self).registered,
            },
    {
        if let Some(e) = self.registered {
            if !e.suspended {
                let res = unregister(e.id);
                if res.is_ok() {
                    self.registered = Some(Registered { suspended: true, ..e });
                }
                return res;
            }
        }
        Ok(())
    }

    /// Registers the released shortcut again; `None` when there is none.
    pub fn resume<R: FnOnce(i32, Hotkey) -> Result<(), String>>(&mut self, register: R) -> (r:
        Option<HotkeyReport>)
        requires
            forall|id: i32, h: Hotkey| call_requires(register, (id, h)),
        ensures
            old(self).registered is None ==> r is None && final(self).registered is None,
            old(self).registered is Some ==> r is Some && exists|res: Result<(), String>|
                #![trigger text_result(res)]
                {
                    &&& (is_live(old(self).registered) || call_ensures(
                        register,
                        (old(self).registered->0.id, old(self).registered->0.selection),
                        res,
                    ))
                    &&& (final(self).registered, report_view(r->0)) == resume_spec(
                        old(self).registered,
                        text_result(res),
                    )
                },
    {
        if self.registered.is_none() {
            return None;
        }
        let (r, Ghost(res)) = self.resume_locked(register);
        Some(r)
    }

    /// The selected shortcut, `Disabled` when none is registered.
    pub fn current(&self) -> (r: Hotkey)
        ensures
            r == match self.registered {
                Some(e) => e.selection,
                None => Hotkey::Disabled,
            },
    {
        match self.registered {
            Some(e) => e.selection,
            None => Hotkey::Disabled,
        }
    }

    /// Whether a hotkey message with this id comes from the live registration.
    pub fn is_active(&self, id: usize) -> (r: bool)
        ensures
            r == (is_live(self.registered) && self.registered->0.id as int == id as int),
    {
        match self.registered {
            Some(e) => !e.suspended && e.id >= 0 && e.id as usize == id,
            None => false,
        }
    }

    /// Forgets the registration, releasing it when it is live.
    pub fn release<U: FnOnce(i32) -> Result<(), String>>(&mut self, unregister: U)
        requires
            forall|id: i32| call_requires(unregister, (id,)),
        ensures
            final(self).registered is None,
            is_live(old(self).registered) ==> exists|res: Result<(), String>|
                call_ensures(unregister, (old(self).registered->0.id,), res),
    {
        if let Some(e) = self.registered {
            if !e.suspended {
                let _ = unregister(e.id);
            }
        }
        self.registered = None;
    }
}

impl HotkeyRegistry {
    /// Starts (`recording`) or ends shortcut recording: the live shortcut is
    /// released while the user types a new one, then registered again. The
    /// status to report is `(requested, active, error)`, or none.
    pub fn set_recording<
        U: FnOnce(i32) -> Result<(), String>,
        R: FnOnce(i32, Hotkey) -> Result<(), String>,
    >(&mut self, recording: bool, unregister: U, register: R) -> (r: Option<
        (Hotkey, Hotkey, Option<String>),
    >)
        requires
            forall|id: i32| call_requires(unregister, (id,)),
            forall|id: i32, h: Hotkey| call_requires(register, (id, h)),
        ensures
            recording && !is_live(old(self).registered) ==> r is None && final(self).registered
                == old(self).registered,
            recording && is_live(old(self).registered) ==> exists|res: Result<(), String>|
                #![trigger call_ensures(unregister, (old(self).registered->0.id,), res)]
                call_ensures(unregister, (old(self).registered->0.id,), res) && match res {
                    Ok(()) => r is None && final(self).registered == Some(
                        Registered { suspended: true, ..old(self).registered->0 },
                    ),
                    Err(e) => final(self).registered == old(self).registered && (r matches Some(
                        (requested, active, Some(msg)),
                    ) && requested == old(self).registered->0.selection && active
                        == requested && msg@ == "快捷键录制准备失败："@ + e@),
                },
            !recording && old(self).registered is None ==> r is None && final(self).registered
                is None,
            !recording && old(self).registered is Some ==> exists|res: Result<(), String>|
                #![trigger text_result(res)]
                {
                    &&& (is_live(old(self).registered) || call_ensures(
                        register,
                        (old(self).registered->0.id, old(self).registered->0.selection),
                        res,
                    ))
                    &&& (r matches Some((requested, active, error)) && requested == active && (
                    final(self).registered, report_view((active, error))) == resume_spec(
                        old(self).registered,
                        text_result(res),
                    ))
                },
    {
        if recording {
            match self.suspend(unregister) {
                Ok(()) => None,
                Err(error) => {
                    let current = self.current();
                    let mut message = text("快捷键录制准备失败：");
                    push_str(&mut message, error.as_str());
                    Some((current, current, Some(message)))
                },
            }
        } else {
            match self.resume(register) {
                Some((active, error)) => Some((active, active, error)),
                None => None,
            }
        }
    }
}

/// A failed change of shortcut leaves the live one in place: when
/// registering the replacement fails, the registration and the active
/// shortcut stay what they were, and an error is reported.
pub proof fn law_failed_change_keeps_the_old_shortcut(
    reg: Registered,
    requested: Hotkey,
    error: Seq<char>,
    restore: Result<(), Seq<char>>,
)
    requires
        !reg.suspended,
        requested != reg.selection,
        requested != Hotkey::Disabled,
    ensures
        apply_spec(Some(reg), requested, Err(error), restore).0 == Some(reg),
        apply_spec(Some(reg), requested, Err(error), restore).1.0 == reg.selection,
        apply_spec(Some(reg), requested, Err(error), restore).1.1 is Some,
{
}

/// A successful change registers the new shortcut under the other id, so
/// the old registration can still be released afterwards.
pub proof fn law_replacement_uses_the_other_id(
    reg: Option<Registered>,
    requested: Hotkey,
    restore: Result<(), Seq<char>>,
)
    requires
        requested != Hotkey::Disabled,
        !(reg is Some && reg->0.selection == requested),
    ensures
        apply_spec(reg, requested, Ok(()), restore).0 matches Some(n) && n.selection == requested
            && !n.suspended && (reg matches Some(e) ==> n.id != e.id),
{
}

} // verus!
