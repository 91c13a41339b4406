//! The installer state machine: one step at a time through the wizard,
//! one event at a time through `handle`.
//!
//! The machine owns every piece of install state. It accepts two kinds of
//! event: user intents, and completions of the asynchronous work the
//! surrounding application performs on its behalf. Whenever it starts such
//! work it records a pending mark and hands back the action to perform;
//! while the mark is set it is processing, every user intent is refused
//! unchanged, and any completion clears the mark — no trace leaves the
//! machine stuck processing, and no two operations ever run at once.

use vstd::prelude::*;

use crate::bitcoind::{
    addr_ok, cfg_wf, parse_addr, path_is_ok, path_ok, BitcoindConfig, ConnectionError,
};
use crate::bytes::{copy_vec, dec_value};
use crate::config::{render_config, spec_config};
use crate::descriptor::{
    parse_imported, render, spec_render, spec_validate_err, validate, Descriptor, ValidationError,
};
use crate::devices::{
    busy_without, has_fp, spec_registered, spec_roster, DeviceError, DeviceInfo, DeviceRegistry,
};
use crate::network::Network;

verus! {

/// The ordered steps of the wizard.
#[derive(Clone, Copy, Debug, PartialEq, Eq, Structural)]
pub enum Step {
    Welcome,
    DefineDescriptor,
    RegisterDescriptor,
    DefineBitcoind,
    Install,
    Done,
}

/// Whether the descriptor is being built from keys or imported as text.
/// The mode is chosen explicitly, never inferred from which fields happen
/// to be filled.
#[derive(Clone, Copy, Debug, PartialEq, Eq, Structural)]
pub enum DescriptorMode {
    Derived,
    Imported,
}

/// An editable input field.
#[derive(Clone, Copy, Debug, PartialEq, Eq, Structural)]
pub enum Field {
    OwnerKey,
    HeirKey,
    Timelock,
    ImportedDescriptor,
    NodeAddress,
    CookiePath,
}

/// How writing the configuration artifact failed.
#[derive(Clone, Copy, Debug, PartialEq, Eq, Structural)]
pub enum WriteError {
    PathUnwritable,
    DiskFull,
    Serialization,
}

/// An error surfaced on the snapshot. The wizard stays on its step; the
/// user corrects input or retries.
#[derive(Clone, Copy, Debug, PartialEq, Eq, Structural)]
pub enum InstallError {
    Validation(ValidationError),
    Device(DeviceError),
    Connection(ConnectionError),
    Write(WriteError),
}

/// A discrete user intent.
#[derive(Debug)]
pub enum Intent {
    Next,
    Previous,
    SelectNetwork(Network),
    SelectMode(DescriptorMode),
    FieldEdited(Field, Vec<u8>),
    SelectDevice(usize),
    ImportHwKey(bool),
    Reload,
    Install,
    Close,
}

/// The completion of one asynchronous operation, delivered back into the
/// machine in the same shape as a user intent.
#[derive(Debug)]
pub enum Completion {
    /// Whether a data directory for the network already exists.
    DataDirChecked(Network, bool),
    DevicesEnumerated(Vec<DeviceInfo>),
    /// Key text imported from the device with this fingerprint, for the
    /// heir field when the flag is set.
    KeyImported(u32, bool, Result<Vec<u8>, DeviceError>),
    /// The device with this fingerprint confirmed (attestation) or
    /// refused the descriptor.
    Registered(u32, Result<u64, DeviceError>),
    NodeChecked(Result<(), ConnectionError>),
    /// The artifact path on success.
    WriteFinished(Result<Vec<u8>, WriteError>),
}

#[derive(Debug)]
pub enum Event {
    User(Intent),
    Task(Completion),
}

/// The operation the machine is waiting on. At most one is pending.
#[derive(Clone, Copy, Debug, PartialEq, Eq, Structural)]
pub enum PendingOp {
    ProbeDataDir(Network),
    Enumerate,
    ImportKey { fingerprint: u32, heir: bool },
    Register { fingerprint: u32 },
    NodeCheck,
    Write,
}

/// What the surrounding application must perform when the machine hands
/// it out; its outcome returns as the matching `Completion`.
#[derive(Debug)]
pub enum Action {
    ProbeDataDir(Network),
    Enumerate,
    ImportKey { fingerprint: u32, heir: bool, network: Network },
    Register { fingerprint: u32, descriptor: Vec<u8> },
    NodeCheck { host: Vec<u8>, port: u16, cookie_path: Vec<u8> },
    Write { network: Network, content: Vec<u8> },
}

/// A pending operation may only exist on the step that starts it.
pub open spec fn pending_step_ok(p: PendingOp, st: Step) -> bool {
    match p {
        PendingOp::ProbeDataDir(_) => st is Welcome,
        PendingOp::Enumerate => st is DefineDescriptor || st is RegisterDescriptor,
        PendingOp::ImportKey { .. } => st is DefineDescriptor,
        PendingOp::Register { .. } => st is RegisterDescriptor,
        PendingOp::NodeCheck => st is DefineBitcoind,
        PendingOp::Write => st is Install,
    }
}

/// The steps from descriptor registration onward, which all require a
/// stored descriptor.
pub open spec fn past_define(st: Step) -> bool {
    st is RegisterDescriptor || st is DefineBitcoind || st is Install || st is Done
}

/// The whole install state.
pub struct Installer {
    pub step: Step,
    pub network: Network,
    /// Whether no data directory exists yet for the chosen network.
    pub network_dir_free: bool,
    pub mode: DescriptorMode,
    pub owner_field: Vec<u8>,
    pub heir_field: Vec<u8>,
    pub timelock_field: Vec<u8>,
    pub imported_field: Vec<u8>,
    pub address_field: Vec<u8>,
    pub cookie_field: Vec<u8>,
    pub descriptor: Option<Descriptor>,
    pub registry: DeviceRegistry,
    /// The device selected for import or registration, by fingerprint,
    /// never by list position.
    pub chosen_device: Option<u32>,
    pub bitcoind: Option<BitcoindConfig>,
    pub pending: Option<PendingOp>,
    pub last_error: Option<InstallError>,
    pub artifact_path: Option<Vec<u8>>,
}

impl Installer {
    /// The machine is processing while an operation is pending; intents
    /// are refused until the completion arrives.
    pub open spec fn processing(self) -> bool {
        self.pending is Some
    }

    /// Reachable states keep their guards: steps past definition hold a
    /// well-formed descriptor for the chosen network, the install step
    /// holds a node connection, the terminal step holds the artifact path,
    /// a chosen device is in the roster, and a pending operation belongs
    /// to the current step.
    pub open spec fn inv(self) -> bool {
        &&& self.registry.inv()
        &&& (past_define(self.step) ==> (self.descriptor matches Some(d) && d.wf() && d.network
            == self.network))
        &&& (self.step is Install || self.step is Done ==> self.bitcoind is Some)
        &&& (self.bitcoind matches Some(cfg) ==> cfg_wf(cfg))
        &&& (self.step is Done ==> self.artifact_path is Some)
        &&& (self.chosen_device matches Some(fp) ==> has_fp(self.registry.devices(), fp))
        &&& (self.pending matches Some(p) ==> pending_step_ok(p, self.step))
    }

    /// A fresh wizard on the welcome step. Selecting a network (the
    /// starting one included) probes its data directory.
    pub fn new(network: Network) -> (r: Installer)
        ensures
            r.inv(),
            r.step is Welcome,
            !r.processing(),
            r.network == network,
            !r.network_dir_free,
            r.descriptor is None,
            r.bitcoind is None,
            r.artifact_path is None,
            r.last_error is None,
            r.chosen_device is None,
            r.registry.devices() == Seq::<crate::devices::Device>::empty(),
    {
        Installer {
            step: Step::Welcome,
            network,
            network_dir_free: false,
            mode: DescriptorMode::Derived,
            owner_field: Vec::new(),
            heir_field: Vec::new(),
            timelock_field: Vec::new(),
            imported_field: Vec::new(),
            address_field: Vec::new(),
            cookie_field: Vec::new(),
            descriptor: None,
            registry: DeviceRegistry::new(),
            chosen_device: None,
            bitcoind: None,
            pending: None,
            last_error: None,
            artifact_path: None,
        }
    }

    /// What selecting network `n` leaves behind: on the welcome step,
    /// every downstream input — keys, timelock, imported text, mode,
    /// descriptor, device roster and selection, node fields and
    /// connection, artifact, error — is reset and the data-directory
    /// probe starts; elsewhere nothing happens.
    pub open spec fn select_network_post(
        self,
        n: Network,
        r: (Installer, Option<Action>),
    ) -> bool {
        &&& (self.step is Welcome ==> {
            &&& r.0.step is Welcome
            &&& r.0.network == n
            &&& !r.0.network_dir_free
            &&& r.0.mode is Derived
            &&& r.0.descriptor is None
            &&& r.0.bitcoind is None
            &&& r.0.artifact_path is None
            &&& r.0.chosen_device is None
            &&& r.0.last_error is None
            &&& r.0.owner_field@ == Seq::<u8>::empty()
            &&& r.0.heir_field@ == Seq::<u8>::empty()
            &&& r.0.timelock_field@ == Seq::<u8>::empty()
            &&& r.0.imported_field@ == Seq::<u8>::empty()
            &&& r.0.address_field@ == Seq::<u8>::empty()
            &&& r.0.cookie_field@ == Seq::<u8>::empty()
            &&& r.0.registry.devices() == Seq::<crate::devices::Device>::empty()
            &&& r.0.registry.busy() == Seq::<u32>::empty()
            &&& r.0.pending == Some(PendingOp::ProbeDataDir(n))
            &&& r.1 == Some(Action::ProbeDataDir(n))
        })
        &&& (!(self.step is Welcome) ==> r.0 == self && r.1 is None)
    }

    /// Selecting a network resets everything downstream — keys, mode,
    /// descriptor, device state, node connection — and probes whether a
    /// data directory for it already exists.
    pub fn on_select_network(self, n: Network) -> (r: (Installer, Option<Action>))
        requires
            self.inv(),
            !self.processing(),
        ensures
            r.0.inv(),
            self.select_network_post(n, r),
    {
        match self.step {
            Step::Welcome => {
                let s = Installer {
                    step: Step::Welcome,
                    network: n,
                    network_dir_free: false,
                    mode: DescriptorMode::Derived,
                    owner_field: Vec::new(),
                    heir_field: Vec::new(),
                    timelock_field: Vec::new(),
                    imported_field: Vec::new(),
                    address_field: Vec::new(),
                    cookie_field: Vec::new(),
                    descriptor: None,
                    registry: DeviceRegistry::new(),
                    chosen_device: None,
                    bitcoind: None,
                    pending: Some(PendingOp::ProbeDataDir(n)),
                    last_error: None,
                    artifact_path: None,
                };
                (s, Some(Action::ProbeDataDir(n)))
            },
            _ => (self, None),
        }
    }

    /// What choosing input mode `m` leaves behind.
    pub open spec fn select_mode_post(self, m: DescriptorMode, r: (Installer, Option<Action>)) -> bool {
        &&& r.1 is None
        &&& (self.step is DefineDescriptor ==> r.0 == (Installer {
            mode: m,
            last_error: None,
            ..self
        }))
        &&& (!(self.step is DefineDescriptor) ==> r.0 == self)
    }

    /// Choosing the input mode on the definition step; an explicit toggle,
    /// so a half-filled form never makes the choice by accident.
    pub fn on_select_mode(self, m: DescriptorMode) -> (r: (Installer, Option<Action>))
        requires
            self.inv(),
            !self.processing(),
        ensures
            r.0.inv(),
            self.select_mode_post(m, r),
    {
        match self.step {
            Step::DefineDescriptor => {
                let mut s = self;
                s.mode = m;
                s.last_error = None;
                (s, None)
            },
            _ => (self, None),
        }
    }

    /// What editing field `f` with `text` leaves behind: the field's raw
    /// text replaced and the error slot cleared, on the step the field
    /// belongs to; elsewhere nothing.
    pub open spec fn field_edited_post(
        self,
        f: Field,
        text: Vec<u8>,
        r: (Installer, Option<Action>),
    ) -> bool {
        &&& r.1 is None
        &&& (self.step is DefineDescriptor && f is OwnerKey ==> r.0 == (Installer {
                owner_field: text,
                last_error: None,
                ..self
            }))
        &&& (self.step is DefineDescriptor && f is HeirKey ==> r.0 == (Installer {
                heir_field: text,
                last_error: None,
                ..self
            }))
        &&& (self.step is DefineDescriptor && f is Timelock ==> r.0 == (Installer {
                timelock_field: text,
                last_error: None,
                ..self
            }))
        &&& (self.step is DefineDescriptor && f is ImportedDescriptor ==> r.0 == (Installer {
                imported_field: text,
                last_error: None,
                ..self
            }))
        &&& (self.step is DefineBitcoind && f is NodeAddress ==> r.0 == (Installer {
                address_field: text,
                last_error: None,
                ..self
            }))
        &&& (self.step is DefineBitcoind && f is CookiePath ==> r.0 == (Installer {
                cookie_field: text,
                last_error: None,
                ..self
            }))
        &&& (!(self.step is DefineDescriptor && (f is OwnerKey || f is HeirKey || f is Timelock
                || f is ImportedDescriptor)) && !(self.step is DefineBitcoind && (f
                is NodeAddress || f is CookiePath)) ==> r.0 == self)
    }

    /// Editing a field stores the raw text and resets its validation: the
    /// error slot is cleared, and nothing is checked until the next
    /// advance. Fields belong to a step; an edit elsewhere is refused.
    pub fn on_field_edited(self, f: Field, text: Vec<u8>) -> (r: (Installer, Option<Action>))
        requires
            self.inv(),
            !self.processing(),
        ensures
            r.0.inv(),
            self.field_edited_post(f, text, r),
    {
        let mut s = self;
        match (s.step, f) {
            (Step::DefineDescriptor, Field::OwnerKey) => {
                s.owner_field = text;
                s.last_error = None;
            },
            (Step::DefineDescriptor, Field::HeirKey) => {
                s.heir_field = text;
                s.last_error = None;
            },
            (Step::DefineDescriptor, Field::Timelock) => {
                s.timelock_field = text;
                s.last_error = None;
            },
            (Step::DefineDescriptor, Field::ImportedDescriptor) => {
                s.imported_field = text;
                s.last_error = None;
            },
            (Step::DefineBitcoind, Field::NodeAddress) => {
                s.address_field = text;
                s.last_error = None;
            },
            (Step::DefineBitcoind, Field::CookiePath) => {
                s.cookie_field = text;
                s.last_error = None;
            },
            _ => {},
        }
        (s, None)
    }

    /// One step back. Derived state that the step ahead produced is
    /// discarded — the descriptor when leaving registration, the node
    /// connection when leaving the install step — since the user goes back
    /// to change what produced it.
    /// What one step back leaves behind.
    pub open spec fn previous_post(self, r: (Installer, Option<Action>)) -> bool {
        &&& r.1 is None
        &&& !r.0.processing()
        &&& (self.step is Welcome ==> r.0 == self)
        &&& (self.step is DefineDescriptor ==> r.0 == (Installer {
                step: Step::Welcome,
                last_error: None,
                ..self
            }))
        &&& (self.step is RegisterDescriptor ==> r.0 == (Installer {
                step: Step::DefineDescriptor,
                descriptor: None,
                last_error: None,
                ..self
            }))
        &&& (self.step is DefineBitcoind ==> r.0 == (Installer {
                step: Step::RegisterDescriptor,
                last_error: None,
                ..self
            }))
        &&& (self.step is Install ==> r.0 == (Installer {
                step: Step::DefineBitcoind,
                bitcoind: None,
                last_error: None,
                ..self
            }))
        &&& (self.step is Done ==> r.0 == (Installer {
                step: Step::Install,
                last_error: None,
                ..self
            }))
    }

    /// One step back. Derived state that the step ahead produced is
    /// discarded — the descriptor when leaving registration, the node
    /// connection when leaving the install step — since the user goes
    /// back to change what produced it.
    pub fn on_previous(self) -> (r: (Installer, Option<Action>))
        requires
            self.inv(),
            !self.processing(),
        ensures
            r.0.inv(),
            self.previous_post(r),
    {
        let mut s = self;
        match s.step {
            Step::Welcome => {},
            Step::DefineDescriptor => {
                s.step = Step::Welcome;
                s.last_error = None;
            },
            Step::RegisterDescriptor => {
                s.step = Step::DefineDescriptor;
                s.descriptor = None;
                s.last_error = None;
            },
            Step::DefineBitcoind => {
                s.step = Step::RegisterDescriptor;
                s.last_error = None;
            },
            Step::Install => {
                s.step = Step::DefineBitcoind;
                s.bitcoind = None;
                s.last_error = None;
            },
            Step::Done => {
                s.step = Step::Install;
                s.last_error = None;
            },
        }
        (s, None)
    }

    /// What dismissing the modal leaves behind: the error slot cleared
    /// and nothing else.
    pub open spec fn close_post(self, r: (Installer, Option<Action>)) -> bool {
        &&& r.1 is None
        &&& r.0 == (Installer { last_error: None, ..self })
    }

    /// Dismissing the modal clears the error slot and nothing else.
    pub fn on_close(self) -> (r: (Installer, Option<Action>))
        requires
            self.inv(),
            !self.processing(),
        ensures
            r.0.inv(),
            self.close_post(r),
    {
        let mut s = self;
        s.last_error = None;
        (s, None)
    }

    /// Asks for a fresh device enumeration on the steps that show the
    /// device list.
    /// What asking for a fresh enumeration leaves behind.
    pub open spec fn reload_post(self, r: (Installer, Option<Action>)) -> bool {
        &&& (self.step is DefineDescriptor || self.step is RegisterDescriptor ==> r.0 == (
        Installer { pending: Some(PendingOp::Enumerate), ..self }) && r.1 == Some(
            Action::Enumerate,
        ))
        &&& (!(self.step is DefineDescriptor || self.step is RegisterDescriptor) ==> r.0 == self
            && r.1 is None)
    }

    pub fn on_reload(self) -> (r: (Installer, Option<Action>))
        requires
            self.inv(),
            !self.processing(),
        ensures
            r.0.inv(),
            self.reload_post(r),
    {
        match self.step {
            Step::DefineDescriptor | Step::RegisterDescriptor => {
                let mut s = self;
                s.pending = Some(PendingOp::Enumerate);
                (s, Some(Action::Enumerate))
            },
            _ => (self, None),
        }
    }

    /// What advancing leaves behind, step by step: the welcome step needs
    /// a free data directory; the definition step builds and stores the
    /// descriptor exactly when validation allows, or records why it did
    /// not; the registration step always moves on; the node step starts
    /// the connection check exactly when the address parses and the
    /// cookie path is line-bounded, or records which field is at fault.
    pub open spec fn next_post(self, r: (Installer, Option<Action>)) -> bool {
        &&& (self.step is Welcome ==> {
                &&& r.1 is None
                &&& (self.network_dir_free ==> r.0 == (Installer {
                    step: Step::DefineDescriptor,
                    last_error: None,
                    ..self
                }))
                &&& (!self.network_dir_free ==> r.0 == self)
            })
        &&& (self.step is DefineDescriptor && self.mode is Derived ==> {
                let v = spec_validate_err(
                    self.owner_field@,
                    self.heir_field@,
                    self.timelock_field@,
                    self.network,
                );
                &&& r.1 is None
                &&& !r.0.processing()
                &&& (v is None ==> r.0.step is RegisterDescriptor && (r.0.descriptor matches Some(
                    d,
                ) && d.wf() && d.network == self.network && d.owner@ == self.owner_field@
                    && d.heir@ == self.heir_field@ && d.timelock == dec_value(
                    self.timelock_field@,
                )) && r.0.last_error is None)
                &&& (v matches Some(e) ==> r.0 == (Installer {
                    last_error: Some(InstallError::Validation(e)),
                    ..self
                }))
            })
        &&& (self.step is DefineDescriptor && self.mode is Imported ==> {
                &&& r.1 is None
                &&& !r.0.processing()
                &&& (r.0.step is RegisterDescriptor ==> (r.0.descriptor matches Some(d) && d.wf()
                    && d.network == self.network && spec_render(d) == self.imported_field@)
                    && r.0.last_error is None)
                &&& ((exists|d: Descriptor|
                    d.wf() && d.network == self.network && spec_render(d)
                        == self.imported_field@) ==> r.0.step is RegisterDescriptor)
                &&& (r.0.step is RegisterDescriptor || (r.0.step is DefineDescriptor
                    && r.0.descriptor == self.descriptor && (r.0.last_error matches Some(
                    InstallError::Validation(_),
                ))))
            })
        &&& (self.step is RegisterDescriptor ==> r.0 == (Installer {
                step: Step::DefineBitcoind,
                last_error: None,
                ..self
            }) && r.1 is None)
        &&& (self.step is DefineBitcoind ==> {
                &&& ((exists|i: int| addr_ok(self.address_field@, i)) && !path_ok(
                    self.cookie_field@,
                ) ==> r.0 == (Installer {
                    last_error: Some(InstallError::Connection(ConnectionError::CookieUnreadable)),
                    ..self
                }) && r.1 is None)
                &&& ((exists|i: int| addr_ok(self.address_field@, i)) && path_ok(
                    self.cookie_field@,
                ) ==> r.0 == (Installer {
                    pending: Some(PendingOp::NodeCheck),
                    ..self
                }) && (r.1 matches Some(a) && a matches Action::NodeCheck {
                    host,
                    port,
                    cookie_path,
                } && addr_ok(self.address_field@, host@.len() as int) && host@
                    == self.address_field@.subrange(0, host@.len() as int) && port == dec_value(
                    self.address_field@.subrange(
                        host@.len() as int + 1,
                        self.address_field@.len() as int,
                    ),
                ) && cookie_path@ == self.cookie_field@))
                &&& (!(exists|i: int| addr_ok(self.address_field@, i)) ==> r.0 == (Installer {
                    last_error: Some(
                        InstallError::Connection(ConnectionError::AddressUnparseable),
                    ),
                    ..self
                }) && r.1 is None)
            })
        &&& (self.step is Install || self.step is Done ==> r.0 == self && r.1 is None)
    }

    /// Advances the wizard. On the welcome step this needs a free data
    /// directory; on the definition step it builds and stores the
    /// descriptor, or records why it could not; on the node step it
    /// checks both connection fields and starts the asynchronous probe.
    pub fn on_next(self) -> (r: (Installer, Option<Action>))
        requires
            self.inv(),
            !self.processing(),
        ensures
            r.0.inv(),
            self.next_post(r),
    {
        match self.step {
            Step::Welcome => {
                if self.network_dir_free {
                    let mut s = self;
                    s.step = Step::DefineDescriptor;
                    s.last_error = None;
                    (s, None)
                } else {
                    (self, None)
                }
            },
            Step::DefineDescriptor => {
                let res = match self.mode {
                    DescriptorMode::Derived => validate(
                        self.owner_field.as_slice(),
                        self.heir_field.as_slice(),
                        self.timelock_field.as_slice(),
                        self.network,
                    ),
                    DescriptorMode::Imported => parse_imported(
                        self.imported_field.as_slice(),
                        self.network,
                    ),
                };
                let mut s = self;
                match res {
                    Ok(d) => {
                        s.descriptor = Some(d);
                        s.step = Step::RegisterDescriptor;
                        s.last_error = None;
                    },
                    Err(e) => {
                        s.last_error = Some(InstallError::Validation(e));
                    },
                }
                (s, None)
            },
            Step::RegisterDescriptor => {
                let mut s = self;
                s.step = Step::DefineBitcoind;
                s.last_error = None;
                (s, None)
            },
            Step::DefineBitcoind => {
                match parse_addr(self.address_field.as_slice()) {
                    Some((host, port)) => {
                        if path_is_ok(self.cookie_field.as_slice()) {
                            let cookie = copy_vec(&self.cookie_field);
                            let mut s = self;
                            s.pending = Some(PendingOp::NodeCheck);
                            (s, Some(Action::NodeCheck { host, port, cookie_path: cookie }))
                        } else {
                            let mut s = self;
                            s.last_error = Some(
                                InstallError::Connection(ConnectionError::CookieUnreadable),
                            );
                            (s, None)
                        }
                    },
                    None => {
                        let mut s = self;
                        s.last_error = Some(
                            InstallError::Connection(ConnectionError::AddressUnparseable),
                        );
                        (s, None)
                    },
                }
            },
            _ => (self, None),
        }
    }

    /// What selecting the device at position `i` leaves behind. The
    /// choice is recorded by fingerprint; on the registration step it
    /// also claims the device's in-flight slot and sends the stored
    /// descriptor, or reports the device busy. The roster itself is never
    /// touched — in particular, an unregistered device stays
    /// unregistered until its own completion says otherwise.
    pub open spec fn select_device_post(self, i: usize, r: (Installer, Option<Action>)) -> bool {
        &&& (!(self.step is DefineDescriptor || self.step is RegisterDescriptor) || i
            >= self.registry.devices().len() ==> r.0 == self && r.1 is None)
        &&& (self.step is DefineDescriptor && i < self.registry.devices().len() ==> r.0 == (
        Installer {
            chosen_device: Some(self.registry.devices()[i as int].fingerprint),
            last_error: None,
            ..self
        }) && r.1 is None)
        &&& (self.step is RegisterDescriptor && i < self.registry.devices().len() ==> {
            let fp = self.registry.devices()[i as int].fingerprint;
            &&& r.0.registry.devices() == self.registry.devices()
            &&& (!self.registry.busy().contains(fp) ==> r.0 == (Installer {
                chosen_device: Some(fp),
                pending: Some(PendingOp::Register { fingerprint: fp }),
                last_error: None,
                registry: r.0.registry,
                ..self
            }) && r.0.registry.busy() == self.registry.busy().push(fp) && (r.1 matches Some(a)
                && a matches Action::Register {
                fingerprint,
                descriptor,
            } && fingerprint == fp && (self.descriptor matches Some(d) && descriptor@
                == spec_render(d))))
            &&& (self.registry.busy().contains(fp) ==> r.0 == (Installer {
                chosen_device: Some(fp),
                last_error: Some(InstallError::Device(DeviceError::Busy)),
                registry: r.0.registry,
                ..self
            }) && r.0.registry.busy() == self.registry.busy() && r.1 is None)
        })
    }

    /// Selects a device by list position, translated at once to its
    /// fingerprint so a later roster refresh cannot redirect the choice.
    /// On the registration step, selecting a device also sends it the
    /// stored descriptor; a device with an operation already in flight is
    /// refused as busy.
    pub fn on_select_device(self, i: usize) -> (r: (Installer, Option<Action>))
        requires
            self.inv(),
            !self.processing(),
        ensures
            r.0.inv(),
            self.select_device_post(i, r),
    {
        match self.step {
            Step::DefineDescriptor => {
                if i < self.registry.device_count() {
                    let fp = self.registry.get(i).fingerprint;
                    let mut s = self;
                    s.chosen_device = Some(fp);
                    s.last_error = None;
                    proof {
                        assert(has_fp(s.registry.devices(), fp)) by {
                            assert(s.registry.devices()[i as int].fingerprint == fp);
                        }
                    }
                    (s, None)
                } else {
                    (self, None)
                }
            },
            Step::RegisterDescriptor => {
                if i < self.registry.device_count() {
                    let fp = self.registry.get(i).fingerprint;
                    let text = match &self.descriptor {
                        Some(d) => render(d),
                        None => {
                            proof {
                                assert(false);
                            }
                            Vec::new()
                        },
                    };
                    let mut s = self;
                    s.chosen_device = Some(fp);
                    proof {
                        assert(has_fp(s.registry.devices(), fp)) by {
                            assert(s.registry.devices()[i as int].fingerprint == fp);
                        }
                    }
                    match s.registry.begin_op(fp) {
                        Ok(()) => {
                            s.pending = Some(PendingOp::Register { fingerprint: fp });
                            s.last_error = None;
                            (s, Some(Action::Register { fingerprint: fp, descriptor: text }))
                        },
                        Err(e) => {
                            s.last_error = Some(InstallError::Device(e));
                            (s, None)
                        },
                    }
                } else {
                    (self, None)
                }
            },
            _ => (self, None),
        }
    }

    /// What asking for a key import leaves behind: with a chosen device
    /// on the definition step, its in-flight slot is claimed and the
    /// import starts, or the device is reported busy; the roster is never
    /// touched.
    pub open spec fn import_key_post(self, heir: bool, r: (Installer, Option<Action>)) -> bool {
        &&& (!(self.step is DefineDescriptor) || self.chosen_device is None ==> r.0 == self && r.1
            is None)
        &&& (self.chosen_device matches Some(fp) ==> (self.step is DefineDescriptor ==> {
            &&& r.0.registry.devices() == self.registry.devices()
            &&& (!self.registry.busy().contains(fp) ==> r.0 == (Installer {
                pending: Some(PendingOp::ImportKey { fingerprint: fp, heir }),
                last_error: None,
                registry: r.0.registry,
                ..self
            }) && r.0.registry.busy() == self.registry.busy().push(fp) && (r.1 matches Some(a)
                && a matches Action::ImportKey {
                fingerprint,
                heir: h2,
                network,
            } && fingerprint == fp && h2 == heir && network == self.network))
            &&& (self.registry.busy().contains(fp) ==> r.0 == (Installer {
                last_error: Some(InstallError::Device(DeviceError::Busy)),
                registry: r.0.registry,
                ..self
            }) && r.0.registry.busy() == self.registry.busy() && r.1 is None)
        }))
    }

    /// Asks the chosen device for its public key for the chosen network,
    /// to fill the owner or the heir field.
    pub fn on_import_key(self, heir: bool) -> (r: (Installer, Option<Action>))
        requires
            self.inv(),
            !self.processing(),
        ensures
            r.0.inv(),
            self.import_key_post(heir, r),
    {
        match self.step {
            Step::DefineDescriptor => {
                match self.chosen_device {
                    Some(fp) => {
                        let mut s = self;
                        match s.registry.begin_op(fp) {
                            Ok(()) => {
                                s.pending = Some(PendingOp::ImportKey { fingerprint: fp, heir });
                                s.last_error = None;
                                let net = s.network;
                                (s, Some(Action::ImportKey { fingerprint: fp, heir, network: net }))
                            },
                            Err(e) => {
                                s.last_error = Some(InstallError::Device(e));
                                (s, None)
                            },
                        }
                    },
                    None => (self, None),
                }
            },
            _ => (self, None),
        }
    }

    /// Starts writing the configuration artifact: the final validated
    /// state, rendered to its stable byte form, handed out to be written
    /// atomically. Refused, like every intent, while processing — two
    /// rapid installs produce one write.
    /// What triggering the install leaves behind: on the install step the
    /// write of the rendered artifact starts; elsewhere nothing.
    pub open spec fn install_post(self, r: (Installer, Option<Action>)) -> bool {
        &&& (!(self.step is Install) ==> r.0 == self && r.1 is None)
        &&& (self.step is Install ==> r.0 == (Installer {
            pending: Some(PendingOp::Write),
            last_error: None,
            ..self
        }) && (self.descriptor matches Some(d) && self.bitcoind matches Some(cfg) ==> (r.1
            matches Some(a) && a matches Action::Write { network, content } && network
            == self.network && content@ == spec_config(
            self.network,
            d,
            cfg,
            spec_registered(self.registry.devices()),
        ))))
    }

    pub fn on_install(self) -> (r: (Installer, Option<Action>))
        requires
            self.inv(),
            !self.processing(),
        ensures
            r.0.inv(),
            self.install_post(r),
    {
        match self.step {
            Step::Install => {
                let fps = self.registry.registered_fingerprints();
                let content = match (&self.descriptor, &self.bitcoind) {
                    (Some(d), Some(c)) => render_config(self.network, d, c, &fps),
                    _ => {
                        proof {
                            assert(false);
                        }
                        Vec::new()
                    },
                };
                let mut s = self;
                s.pending = Some(PendingOp::Write);
                s.last_error = None;
                let net = s.network;
                (s, Some(Action::Write { network: net, content }))
            },
            _ => (self, None),
        }
    }

    /// What a completion leaves behind: whatever arrives, nothing is
    /// pending afterwards; the completion matching the pending operation
    /// applies its effect, any other is discarded.
    pub open spec fn completion_post(self, c: Completion, r: (Installer, Option<Action>)) -> bool {
        &&& !r.0.processing()
        &&& r.1 is None
        &&& (self.pending is None ==> r.0 == self)
        &&& (self.pending matches Some(PendingOp::ProbeDataDir(n)) ==> (c matches
                Completion::DataDirChecked(n2, exists_dir) ==> (n2 == n && n == self.network ==>
            r.0 == (Installer { pending: None, network_dir_free: !exists_dir, ..self }))))
        &&& (self.pending == Some(PendingOp::Enumerate) ==> (c matches
                Completion::DevicesEnumerated(list) ==> {
                &&& r.0.registry.devices() == spec_roster(list@, self.registry.devices())
                &&& (r.0.chosen_device matches Some(fp) ==> self.chosen_device == Some(fp)
                    && has_fp(r.0.registry.devices(), fp))
                &&& r.0.step == self.step
            }))
        &&& (self.pending matches Some(PendingOp::ImportKey { fingerprint: fp, heir }) ==> (c
                matches Completion::KeyImported(fp2, h2, res) ==> (fp2 == fp && h2 == heir ==> {
                &&& r.0.step == self.step
                &&& r.0.registry.devices() == self.registry.devices()
                &&& r.0.registry.busy() == busy_without(self.registry.busy(), fp)
                &&& (res matches Ok(text) ==> r.0.mode is Derived && r.0.last_error is None && (
                heir ==> r.0.heir_field == text && r.0.owner_field == self.owner_field) && (!heir
                    ==> r.0.owner_field == text && r.0.heir_field == self.heir_field))
                &&& (res matches Err(e) ==> r.0.last_error == Some(InstallError::Device(e))
                    && r.0.owner_field == self.owner_field && r.0.heir_field == self.heir_field)
            })))
        &&& (self.pending matches Some(PendingOp::Register { fingerprint: fp }) ==> (c matches
                Completion::Registered(fp2, res) ==> (fp2 == fp ==> {
                &&& r.0.step == self.step
                &&& r.0.registry.busy() == busy_without(self.registry.busy(), fp)
                &&& (res matches Ok(att) ==> r.0.last_error is None
                    && r.0.registry.devices().len() == self.registry.devices().len() && (forall|
                    k: int,
                |
                    0 <= k < self.registry.devices().len() ==> {
                        let od = self.registry.devices()[k];
                        let nd = #[trigger] r.0.registry.devices()[k];
                        &&& nd.kind == od.kind
                        &&& nd.fingerprint == od.fingerprint
                        &&& nd.registered == (if od.fingerprint == fp
                            && self.registry.busy().contains(fp) {
                            Some(att)
                        } else {
                            od.registered
                        })
                    }))
                &&& (res matches Err(e) ==> r.0.last_error == Some(InstallError::Device(e))
                    && r.0.registry.devices() == self.registry.devices())
            })))
        &&& (self.pending == Some(PendingOp::NodeCheck) ==> (c matches Completion::NodeChecked(
                res,
            ) ==> {
                &&& ((res is Ok && (exists|i: int| addr_ok(self.address_field@, i))
                    && path_ok(self.cookie_field@)) ==> r.0.step is Install && (r.0.bitcoind
                    matches Some(cfg) && addr_ok(
                    self.address_field@,
                    cfg.host@.len() as int,
                ) && cfg.host@ == self.address_field@.subrange(0, cfg.host@.len() as int)
                    && cfg.port == dec_value(
                    self.address_field@.subrange(
                        cfg.host@.len() as int + 1,
                        self.address_field@.len() as int,
                    ),
                ) && cfg.cookie_path@ == self.cookie_field@) && r.0.last_error is None)
                &&& ((res is Ok && (exists|i: int| addr_ok(self.address_field@, i))
                    && !path_ok(self.cookie_field@)) ==> r.0.step == self.step && r.0.bitcoind
                    == self.bitcoind && r.0.last_error == Some(
                    InstallError::Connection(ConnectionError::CookieUnreadable),
                ))
                &&& ((res is Ok && !(exists|i: int| addr_ok(self.address_field@, i))) ==> r.0.step
                    == self.step && r.0.last_error == Some(
                    InstallError::Connection(ConnectionError::AddressUnparseable),
                ))
                &&& (res matches Err(e) ==> r.0.step == self.step && r.0.bitcoind == self.bitcoind
                    && r.0.last_error == Some(InstallError::Connection(e)))
            }))
        &&& (self.pending == Some(PendingOp::Write) ==> (c matches Completion::WriteFinished(res)
                ==> {
                &&& (res matches Ok(path) ==> r.0.step is Done && r.0.artifact_path == Some(path)
                    && r.0.last_error is None)
                &&& (res matches Err(e) ==> r.0.step == self.step && r.0.artifact_path
                    == self.artifact_path && r.0.last_error == Some(InstallError::Write(e)))
            }))
    }

    /// Applies the completion of the pending operation. Whatever arrives,
    /// the processing flag is clear afterwards; a completion that matches
    /// nothing pending, or the wrong operation, is discarded harmlessly
    /// (releasing the device's in-flight slot where one was held).
    pub fn on_completion(self, c: Completion) -> (r: (Installer, Option<Action>))
        requires
            self.inv(),
        ensures
            r.0.inv(),
            self.completion_post(c, r),
    {
        let mut s = self;
        match s.pending {
            None => (s, None),
            Some(p) => {
                s.pending = None;
                match p {
                    PendingOp::ProbeDataDir(n) => {
                        match c {
                            Completion::DataDirChecked(n2, exists_dir) => {
                                if n2 == n && n == s.network {
                                    s.network_dir_free = !exists_dir;
                                }
                                (s, None)
                            },
                            _ => (s, None),
                        }
                    },
                    PendingOp::Enumerate => {
                        match c {
                            Completion::DevicesEnumerated(list) => {
                                s.registry.refresh(&list);
                                match s.chosen_device {
                                    Some(cfp) => {
                                        match s.registry.find(cfp) {
                                            Some(k) => {
                                                proof {
                                                    assert(has_fp(s.registry.devices(), cfp)) by {
                                                        assert(s.registry.devices()[
                                                            k as int
                                                        ].fingerprint == cfp);
                                                    }
                                                }
                                            },
                                            None => {
                                                s.chosen_device = None;
                                            },
                                        }
                                    },
                                    None => {},
                                }
                                (s, None)
                            },
                            _ => (s, None),
                        }
                    },
                    PendingOp::ImportKey { fingerprint: fp, heir } => {
                        let matched = match &c {
                            Completion::KeyImported(fp2, h2, _) => *fp2 == fp && *h2 == heir,
                            _ => false,
                        };
                        let _released = s.registry.complete_op(fp, None);
                        if matched {
                            match c {
                                Completion::KeyImported(_, _, res) => {
                                    match res {
                                        Ok(text) => {
                                            if heir {
                                                s.heir_field = text;
                                            } else {
                                                s.owner_field = text;
                                            }
                                            s.mode = DescriptorMode::Derived;
                                            s.last_error = None;
                                        },
                                        Err(e) => {
                                            s.last_error = Some(InstallError::Device(e));
                                        },
                                    }
                                },
                                _ => {},
                            }
                        }
                        proof {
                            assert(s.registry.devices() =~= self.registry.devices());
                            self.lemma_chosen_preserved(s);
                        }
                        (s, None)
                    },
                    PendingOp::Register { fingerprint: fp } => {
                        let matched_att: Option<u64> = match &c {
                            Completion::Registered(fp2, res) => {
                                if *fp2 == fp {
                                    match res {
                                        Ok(att) => Some(*att),
                                        Err(_) => None,
                                    }
                                } else {
                                    None
                                }
                            },
                            _ => None,
                        };
                        let _applied = s.registry.complete_op(fp, matched_att);
                        match c {
                            Completion::Registered(fp2, res) => {
                                if fp2 == fp {
                                    match res {
                                        Ok(_) => {
                                            s.last_error = None;
                                        },
                                        Err(e) => {
                                            s.last_error = Some(InstallError::Device(e));
                                            proof {
                                                assert(s.registry.devices()
                                                    =~= self.registry.devices());
                                            }
                                        },
                                    }
                                }
                            },
                            _ => {},
                        }
                        proof {
                            self.lemma_chosen_preserved(s);
                        }
                        (s, None)
                    },
                    PendingOp::NodeCheck => {
                        match c {
                            Completion::NodeChecked(res) => {
                                match res {
                                    Ok(()) => {
                                        match parse_addr(s.address_field.as_slice()) {
                                            Some((host, port)) => {
                                                if path_is_ok(s.cookie_field.as_slice()) {
                                                    let cookie = copy_vec(&s.cookie_field);
                                                    s.bitcoind = Some(
                                                        BitcoindConfig {
                                                            host,
                                                            port,
                                                            cookie_path: cookie,
                                                        },
                                                    );
                                                    s.step = Step::Install;
                                                    s.last_error = None;
                                                } else {
                                                    s.last_error = Some(
                                                        InstallError::Connection(
                                                            ConnectionError::CookieUnreadable,
                                                        ),
                                                    );
                                                }
                                            },
                                            None => {
                                                s.last_error = Some(
                                                    InstallError::Connection(
                                                        ConnectionError::AddressUnparseable,
                                                    ),
                                                );
                                            },
                                        }
                                    },
                                    Err(e) => {
                                        s.last_error = Some(InstallError::Connection(e));
                                    },
                                }
                                (s, None)
                            },
                            _ => (s, None),
                        }
                    },
                    PendingOp::Write => {
                        match c {
                            Completion::WriteFinished(res) => {
                                match res {
                                    Ok(path) => {
                                        s.artifact_path = Some(path);
                                        s.step = Step::Done;
                                        s.last_error = None;
                                    },
                                    Err(e) => {
                                        s.last_error = Some(InstallError::Write(e));
                                    },
                                }
                                (s, None)
                            },
                            _ => (s, None),
                        }
                    },
                }
            },
        }
    }

    /// A registry change that keeps every fingerprint keeps a chosen
    /// device valid.
    proof fn lemma_chosen_preserved(self, s: Installer)
        requires
            self.chosen_device matches Some(fp) ==> has_fp(self.registry.devices(), fp),
            s.chosen_device == self.chosen_device,
            s.registry.devices().len() == self.registry.devices().len(),
            forall|k: int|
                0 <= k < self.registry.devices().len() ==> #[trigger] s.registry.devices()[
                    k
                ].fingerprint == self.registry.devices()[k].fingerprint,
        ensures
            s.chosen_device matches Some(fp) ==> has_fp(s.registry.devices(), fp),
    {
        if s.chosen_device is Some {
            let fp = choose|fp: u32| s.chosen_device == Some(fp);
            assert(self.chosen_device == Some(fp));
            let w = choose|w: int|
                0 <= w < self.registry.devices().len() && self.registry.devices()[w].fingerprint
                    == fp;
            assert(s.registry.devices()[w].fingerprint == fp);
        }
    }

    /// One entry for every event. User intents are refused unchanged
    /// while an operation is processing; completions always clear the
    /// processing flag; an action is only handed out together with its
    /// pending mark; the registration step is never reached without a
    /// stored, well-formed descriptor; and each event that is accepted
    /// does exactly what its handler's postcondition says — the whole
    /// transition table passes through.
    pub fn handle(self, event: Event) -> (r: (Installer, Option<Action>))
        requires
            self.inv(),
        ensures
            r.0.inv(),
            (event matches Event::User(_) ==> (self.processing() ==> r.0 == self && r.1
                is None)),
            (event matches Event::Task(_) ==> !r.0.processing() && r.1 is None),
            (r.1 is Some ==> r.0.processing()),
            (r.0.step is RegisterDescriptor ==> (r.0.descriptor matches Some(d) && d.wf()
                && d.network == r.0.network)),
            (!self.processing() ==> {
                &&& (event matches Event::User(Intent::Next) ==> self.next_post(r))
                &&& (event matches Event::User(Intent::Previous) ==> self.previous_post(r))
                &&& (event matches Event::User(Intent::SelectNetwork(n))
                    ==> self.select_network_post(n, r))
                &&& (event matches Event::User(Intent::SelectMode(m)) ==> self.select_mode_post(
                    m,
                    r,
                ))
                &&& (event matches Event::User(Intent::FieldEdited(f, text))
                    ==> self.field_edited_post(f, text, r))
                &&& (event matches Event::User(Intent::SelectDevice(i))
                    ==> self.select_device_post(i, r))
                &&& (event matches Event::User(Intent::ImportHwKey(heir))
                    ==> self.import_key_post(heir, r))
                &&& (event matches Event::User(Intent::Reload) ==> self.reload_post(r))
                &&& (event matches Event::User(Intent::Install) ==> self.install_post(r))
                &&& (event matches Event::User(Intent::Close) ==> self.close_post(r))
            }),
            (event matches Event::Task(c) ==> self.completion_post(c, r)),
    {
        match event {
            Event::User(intent) => {
                if self.pending.is_some() {
                    return (self, None);
                }
                match intent {
                    Intent::Next => self.on_next(),
                    Intent::Previous => self.on_previous(),
                    Intent::SelectNetwork(n) => self.on_select_network(n),
                    Intent::SelectMode(m) => self.on_select_mode(m),
                    Intent::FieldEdited(f, text) => self.on_field_edited(f, text),
                    Intent::SelectDevice(i) => self.on_select_device(i),
                    Intent::ImportHwKey(heir) => self.on_import_key(heir),
                    Intent::Reload => self.on_reload(),
                    Intent::Install => self.on_install(),
                    Intent::Close => self.on_close(),
                }
            },
            Event::Task(c) => self.on_completion(c),
        }
    }

    /// The read-only projection handed to the view on every change:
    /// copies, never live references, so nothing outside can race on the
    /// machine's state.
    pub fn snapshot(&self) -> (r: InstallerSnapshot)
        ensures
            r.step == self.step,
            r.network == self.network,
            r.network_dir_free == self.network_dir_free,
            r.mode == self.mode,
            r.processing == self.processing(),
            r.last_error == self.last_error,
            r.devices@ == self.registry.devices(),
            r.chosen_device == self.chosen_device,
            (self.descriptor matches Some(d) ==> (r.descriptor_text matches Some(t) && t@
                == spec_render(d))),
            (self.descriptor is None ==> r.descriptor_text is None),
            (self.artifact_path matches Some(p) ==> (r.artifact_path matches Some(q) && q@
                == p@)),
            (self.artifact_path is None ==> r.artifact_path is None),
    {
        let descriptor_text = match &self.descriptor {
            Some(d) => Some(render(d)),
            None => None,
        };
        let artifact_path = match &self.artifact_path {
            Some(p) => Some(copy_vec(p)),
            None => None,
        };
        InstallerSnapshot {
            step: self.step,
            network: self.network,
            network_dir_free: self.network_dir_free,
            mode: self.mode,
            processing: self.pending.is_some(),
            last_error: self.last_error,
            devices: self.registry.roster_copy(),
            chosen_device: self.chosen_device,
            descriptor_text,
            artifact_path,
        }
    }
}

/// The immutable projection of the install state that the view renders.
pub struct InstallerSnapshot {
    pub step: Step,
    pub network: Network,
    pub network_dir_free: bool,
    pub mode: DescriptorMode,
    pub processing: bool,
    pub last_error: Option<InstallError>,
    pub devices: Vec<crate::devices::Device>,
    pub chosen_device: Option<u32>,
    pub descriptor_text: Option<Vec<u8>>,
    pub artifact_path: Option<Vec<u8>>,
}

} // verus!
