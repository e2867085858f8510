//! The compositor's session on the login manager: acquiring the session and
//! its seat, taking device control, and the per-device pause/resume protocol.
//! The library decides which calls to issue and how to read their replies;
//! the message bus itself lives outside it.

use vstd::prelude::*;

verus! {

/// The boolean encoding of the message bus.
pub const TRUE: u32 = 1;

/// The boolean encoding of the message bus.
pub const FALSE: u32 = 0;

/// A failure reported by the message bus; the description comes from the bus.
#[derive(Debug)]
pub struct DbusError {
    pub msg: String,
}

/// Failures while acquiring or driving the session.
#[derive(Debug)]
pub enum LogindError {
    /// The session id variable is not set.
    XdgSessionId,
    /// Could not retrieve the session bus path.
    GetSession(DbusError),
    /// Could not retrieve the session's seat name.
    GetSeatName(DbusError),
    /// Could not take control of the session.
    TakeControl(DbusError),
}

impl LogindError {
    /// A human-readable description of the error.
    pub fn message(&self) -> (r: &'static str)
        ensures
            r@.len() > 0,
    {
        let s: &'static str = match self {
            LogindError::XdgSessionId => "XDG_SESSION_ID is not set",
            LogindError::GetSession(_) => "could not retrieve the session dbus path",
            LogindError::GetSeatName(_) => "could not retrieve the session seat name",
            LogindError::TakeControl(_) => "could not take control of the session",
        };
        proof {
            reveal_strlit("XDG_SESSION_ID is not set");
            reveal_strlit("could not retrieve the session dbus path");
            reveal_strlit("could not retrieve the session seat name");
            reveal_strlit("could not take control of the session");
        }
        s
    }
}

/// One outgoing call to the login manager, addressed by object path.
pub enum DbusCall {
    /// Resolve a session id to its object path.
    GetSession { session_id: String },
    /// Read the session's seat property.
    GetSeat { session_path: String },
    /// Take control of the session's devices.
    TakeControl { session_path: String, force: u32 },
    /// Declare the session type.
    SetType { session_path: String, ty: String },
    /// Open a device by its major and minor numbers.
    TakeDevice { session_path: String, major: u32, minor: u32 },
    /// Acknowledge that a device was paused.
    PauseDeviceComplete { session_path: String, major: u32, minor: u32 },
    /// Switch the seat to a virtual terminal.
    SwitchTo { seat: String, vtnr: u32 },
    /// Publish whether the session is idle.
    SetIdleHint { session_path: String, idle: u32 },
}

/// The signals the session subscribes to.
#[derive(Copy, Clone, Debug, PartialEq, Eq, Structural)]
pub enum SignalKind {
    PauseDevice,
    ResumeDevice,
}

/// A registered signal subscription.
pub struct SignalSubscription {
    pub handler: u64,
    pub kind: SignalKind,
    pub session_path: String,
}

/// A registered handler; dropping it would end the subscription.
#[derive(Copy, Clone, Debug, PartialEq, Eq, Structural)]
pub struct SignalHandler {
    pub id: u64,
}

/// The outgoing side of the bus connection: calls queued for sending and the
/// signal subscriptions registered so far.
pub struct DbusSocket {
    pub calls: Vec<DbusCall>,
    pub subscriptions: Vec<SignalSubscription>,
    pub next_handler_id: u64,
}

/// The session: the seat it sits on and its object path on the bus.
#[derive(Debug)]
pub struct Session {
    pub seat: String,
    pub session_path: String,
}

/// The major number of a device, from the kernel's layout of device numbers.
pub open spec fn spec_dev_major(dev: u64) -> u32 {
    (((dev >> 8) & 0xfff) | ((dev >> 32) & 0xfffff000)) as u32
}

/// The minor number of a device, from the kernel's layout of device numbers.
pub open spec fn spec_dev_minor(dev: u64) -> u32 {
    ((dev & 0xff) | ((dev >> 12) & 0xffffff00)) as u32
}

/// Extracts a device's major number.
pub fn dev_major(dev: u64) -> (r: u32)
    ensures
        r == spec_dev_major(dev),
{
    proof {
        assert((((dev >> 8) & 0xfff) | ((dev >> 32) & 0xfffff000)) <= 0xffffffff) by (bit_vector);
    }
    ((((dev >> 8) & 0xfff) | ((dev >> 32) & 0xfffff000))) as u32
}

/// Extracts a device's minor number.
pub fn dev_minor(dev: u64) -> (r: u32)
    ensures
        r == spec_dev_minor(dev),
{
    proof {
        assert(((dev & 0xff) | ((dev >> 12) & 0xffffff00)) <= 0xffffffff) by (bit_vector);
    }
    ((dev & 0xff) | ((dev >> 12) & 0xffffff00)) as u32
}

impl Session {
    /// Starts acquiring the session: the call resolving the session id to its
    /// bus path, or the error when the id variable is unset. The id variable
    /// is read once at startup and passed in.
    pub fn get_request(socket: &mut DbusSocket, session_id: Option<String>) -> (r: Result<
        (),
        LogindError,
    >)
        ensures
            final (socket).subscriptions == old(socket).subscriptions,
            final (socket).next_handler_id == old(socket).next_handler_id,
            match (r, session_id) {
                (Ok(()), Some(id)) => final (socket).calls@.len() == old(socket).calls@.len() + 1
                    && final (socket).calls@.subrange(0, old(socket).calls@.len() as int) == old(
                    socket,
                ).calls@ && (final (socket).calls@.last() matches DbusCall::GetSession {
                    session_id: s,
                } && s@ == id@),
                (Err(e), None) => e is XdgSessionId && final (socket).calls == old(socket).calls,
                _ => false,
            },
    {
        let id = match session_id {
            Some(id) => id,
            None => {
                return Err(LogindError::XdgSessionId);
            },
        };
        socket.calls.push(DbusCall::GetSession { session_id: id });
        proof {
            assert(final (socket).calls@.subrange(0, old(socket).calls@.len() as int) =~= old(
                socket,
            ).calls@);
        }
        Ok(())
    }

    /// Reads the session-path reply: the follow-up call asking for the seat,
    /// or the error the bus reported.
    pub fn get_session_reply(socket: &mut DbusSocket, reply: Result<String, DbusError>) -> (r:
        Result<String, LogindError>)
        ensures
            final (socket).subscriptions == old(socket).subscriptions,
            final (socket).next_handler_id == old(socket).next_handler_id,
            match (r, reply) {
                (Ok(path), Ok(p)) => path@ == p@ && final (socket).calls@.len() == old(
                    socket,
                ).calls@.len() + 1 && final (socket).calls@.subrange(
                    0,
                    old(socket).calls@.len() as int,
                ) == old(socket).calls@ && (final (socket).calls@.last()
                    matches DbusCall::GetSeat { session_path: sp } && sp@ == p@),
                (Err(e), Err(_)) => e is GetSession && final (socket).calls == old(socket).calls,
                _ => false,
            },
    {
        let path = match reply {
            Ok(p) => p,
            Err(e) => {
                return Err(LogindError::GetSession(e));
            },
        };
        let path2 = path.clone();
        socket.calls.push(DbusCall::GetSeat { session_path: path });
        proof {
            assert(final (socket).calls@.subrange(0, old(socket).calls@.len() as int) =~= old(
                socket,
            ).calls@);
        }
        Ok(path2)
    }

    /// Reads the seat reply and assembles the session.
    pub fn get_seat_reply(session_path: String, reply: Result<String, DbusError>) -> (r: Result<
        Session,
        LogindError,
    >)
        ensures
            match (r, reply) {
                (Ok(session), Ok(seat)) => session.seat@ == seat@ && session.session_path@
                    == session_path@,
                (Err(e), Err(_)) => e is GetSeatName,
                _ => false,
            },
    {
        match reply {
            Ok(seat) => Ok(Session { seat, session_path }),
            Err(e) => Err(LogindError::GetSeatName(e)),
        }
    }

    /// Asks to take control of the session's devices.
    pub fn take_control(&self, socket: &mut DbusSocket)
        ensures
            final (socket).subscriptions == old(socket).subscriptions,
            final (socket).next_handler_id == old(socket).next_handler_id,
            final (socket).calls@.len() == old(socket).calls@.len() + 1,
            final (socket).calls@.subrange(0, old(socket).calls@.len() as int) == old(
                socket,
            ).calls@,
            final (socket).calls@.last() matches DbusCall::TakeControl { session_path, force }
                && session_path@ == self.session_path@ && force == FALSE,
    {
        let path = self.session_path.clone();
        socket.calls.push(DbusCall::TakeControl { session_path: path, force: FALSE });
        proof {
            assert(final (socket).calls@.subrange(0, old(socket).calls@.len() as int) =~= old(
                socket,
            ).calls@);
        }
    }

    /// Reads the take-control reply: on success the session declares itself a
    /// wayland session; a failure of that later declaration is only logged by
    /// the caller, never fatal.
    pub fn take_control_reply(&self, socket: &mut DbusSocket, reply: Result<(), DbusError>) -> (r:
        Result<(), LogindError>)
        ensures
            final (socket).subscriptions == old(socket).subscriptions,
            final (socket).next_handler_id == old(socket).next_handler_id,
            match (r, reply) {
                (Ok(()), Ok(())) => final (socket).calls@.len() == old(socket).calls@.len() + 1
                    && final (socket).calls@.subrange(0, old(socket).calls@.len() as int) == old(
                    socket,
                ).calls@ && (final (socket).calls@.last() matches DbusCall::SetType {
                    session_path,
                    ty,
                } && session_path@ == self.session_path@ && ty@ == "wayland"@),
                (Err(e), Err(_)) => e is TakeControl && final (socket).calls == old(socket).calls,
                _ => false,
            },
    {
        match reply {
            Ok(()) => {},
            Err(e) => {
                return Err(LogindError::TakeControl(e));
            },
        }
        let path = self.session_path.clone();
        let ty = "wayland".to_owned();
        socket.calls.push(DbusCall::SetType { session_path: path, ty });
        proof {
            assert(final (socket).calls@.subrange(0, old(socket).calls@.len() as int) =~= old(
                socket,
            ).calls@);
        }
        Ok(())
    }

    /// Asks the login manager to open a device, by its packed device number.
    pub fn get_device(&self, socket: &mut DbusSocket, dev: u64)
        ensures
            final (socket).subscriptions == old(socket).subscriptions,
            final (socket).next_handler_id == old(socket).next_handler_id,
            final (socket).calls@.len() == old(socket).calls@.len() + 1,
            final (socket).calls@.subrange(0, old(socket).calls@.len() as int) == old(
                socket,
            ).calls@,
            final (socket).calls@.last() matches DbusCall::TakeDevice {
                session_path,
                major,
                minor,
            } && session_path@ == self.session_path@ && major == spec_dev_major(dev) && minor
                == spec_dev_minor(dev),
    {
        let major = dev_major(dev);
        let minor = dev_minor(dev);
        let path = self.session_path.clone();
        socket.calls.push(DbusCall::TakeDevice { session_path: path, major, minor });
        proof {
            assert(final (socket).calls@.subrange(0, old(socket).calls@.len() as int) =~= old(
                socket,
            ).calls@);
        }
    }

    /// Subscribes to device-pause signals of this session.
    pub fn on_pause(&self, socket: &mut DbusSocket) -> (r: Result<SignalHandler, DbusError>)
        requires
            old(socket).next_handler_id < u64::MAX,
        ensures
            final (socket).calls == old(socket).calls,
            final (socket).next_handler_id == old(socket).next_handler_id + 1,
            r matches Ok(h) && h.id == old(socket).next_handler_id,
            final (socket).subscriptions@.len() == old(socket).subscriptions@.len() + 1,
            final (socket).subscriptions@.subrange(0, old(socket).subscriptions@.len() as int)
                == old(socket).subscriptions@,
            final (socket).subscriptions@.last().handler == old(socket).next_handler_id,
            final (socket).subscriptions@.last().kind == SignalKind::PauseDevice,
            final (socket).subscriptions@.last().session_path@ == self.session_path@,
    {
        let id = socket.next_handler_id;
        socket.next_handler_id = id + 1;
        let path = self.session_path.clone();
        socket.subscriptions.push(
            SignalSubscription { handler: id, kind: SignalKind::PauseDevice, session_path: path },
        );
        proof {
            assert(final (socket).subscriptions@.subrange(
                0,
                old(socket).subscriptions@.len() as int,
            ) =~= old(socket).subscriptions@);
        }
        Ok(SignalHandler { id })
    }

    /// Subscribes to device-resume signals of this session.
    pub fn on_resume(&self, socket: &mut DbusSocket) -> (r: Result<SignalHandler, DbusError>)
        requires
            old(socket).next_handler_id < u64::MAX,
        ensures
            final (socket).calls == old(socket).calls,
            final (socket).next_handler_id == old(socket).next_handler_id + 1,
            r matches Ok(h) && h.id == old(socket).next_handler_id,
            final (socket).subscriptions@.len() == old(socket).subscriptions@.len() + 1,
            final (socket).subscriptions@.subrange(0, old(socket).subscriptions@.len() as int)
                == old(socket).subscriptions@,
            final (socket).subscriptions@.last().handler == old(socket).next_handler_id,
            final (socket).subscriptions@.last().kind == SignalKind::ResumeDevice,
            final (socket).subscriptions@.last().session_path@ == self.session_path@,
    {
        let id = socket.next_handler_id;
        socket.next_handler_id = id + 1;
        let path = self.session_path.clone();
        socket.subscriptions.push(
            SignalSubscription { handler: id, kind: SignalKind::ResumeDevice, session_path: path },
        );
        proof {
            assert(final (socket).subscriptions@.subrange(
                0,
                old(socket).subscriptions@.len() as int,
            ) =~= old(socket).subscriptions@);
        }
        Ok(SignalHandler { id })
    }

    /// Acknowledges that the named device was paused.
    pub fn device_paused(&self, socket: &mut DbusSocket, major: u32, minor: u32)
        ensures
            final (socket).subscriptions == old(socket).subscriptions,
            final (socket).next_handler_id == old(socket).next_handler_id,
            final (socket).calls@.len() == old(socket).calls@.len() + 1,
            final (socket).calls@.subrange(0, old(socket).calls@.len() as int) == old(
                socket,
            ).calls@,
            final (socket).calls@.last() matches DbusCall::PauseDeviceComplete {
                session_path,
                major: ma,
                minor: mi,
            } && session_path@ == self.session_path@ && ma == major && mi == minor,
    {
        let path = self.session_path.clone();
        socket.calls.push(DbusCall::PauseDeviceComplete { session_path: path, major, minor });
        proof {
            assert(final (socket).calls@.subrange(0, old(socket).calls@.len() as int) =~= old(
                socket,
            ).calls@);
        }
    }

    /// Asks the seat to switch to a virtual terminal.
    pub fn switch_to(&self, socket: &mut DbusSocket, vtnr: u32)
        ensures
            final (socket).subscriptions == old(socket).subscriptions,
            final (socket).next_handler_id == old(socket).next_handler_id,
            final (socket).calls@.len() == old(socket).calls@.len() + 1,
            final (socket).calls@.subrange(0, old(socket).calls@.len() as int) == old(
                socket,
            ).calls@,
            final (socket).calls@.last() matches DbusCall::SwitchTo { seat, vtnr: v } && seat@
                == self.seat@ && v == vtnr,
    {
        let seat = self.seat.clone();
        socket.calls.push(DbusCall::SwitchTo { seat, vtnr });
        proof {
            assert(final (socket).calls@.subrange(0, old(socket).calls@.len() as int) =~= old(
                socket,
            ).calls@);
        }
    }

    /// Publishes whether the session is idle, encoded as a bus boolean.
    pub fn set_idle_hint(&self, socket: &mut DbusSocket, idle: bool)
        ensures
            final (socket).subscriptions == old(socket).subscriptions,
            final (socket).next_handler_id == old(socket).next_handler_id,
            final (socket).calls@.len() == old(socket).calls@.len() + 1,
            final (socket).calls@.subrange(0, old(socket).calls@.len() as int) == old(
                socket,
            ).calls@,
            final (socket).calls@.last() matches DbusCall::SetIdleHint { session_path, idle: i }
                && session_path@ == self.session_path@ && i == (if idle {
                TRUE
            } else {
                FALSE
            }),
    {
        let idle_bool = if idle {
            TRUE
        } else {
            FALSE
        };
        let path = self.session_path.clone();
        socket.calls.push(DbusCall::SetIdleHint { session_path: path, idle: idle_bool });
        proof {
            assert(final (socket).calls@.subrange(0, old(socket).calls@.len() as int) =~= old(
                socket,
            ).calls@);
        }
    }
}

} // verus!
