//! The shell-surface base interface: role assignment, window geometry,
//! configure serials, and the extents bookkeeping shared by toplevels and
//! popups. The scene-graph side — workspaces, popups and stacking — lives
//! with the compositor's tree.

use vstd::prelude::*;

use crate::client::Client;
use crate::client::ClientError;
use crate::rect::Rect;
use crate::wire::WireEvent;

verus! {

/// The role a shell surface was assigned.
#[derive(Copy, Clone, Debug, Eq, PartialEq, Structural)]
pub enum XdgSurfaceRole {
    Unassigned,
    XdgPopup,
    XdgToplevel,
}

impl XdgSurfaceRole {
    /// The role's protocol name.
    pub fn name(self) -> (r: &'static str)
        ensures
            r@.len() > 0,
    {
        let s: &'static str = match self {
            XdgSurfaceRole::Unassigned => "none",
            XdgSurfaceRole::XdgPopup => "xdg_popup",
            XdgSurfaceRole::XdgToplevel => "xdg_toplevel",
        };
        proof {
            reveal_strlit("none");
            reveal_strlit("xdg_popup");
            reveal_strlit("xdg_toplevel");
        }
        s
    }
}

/// The double-buffered state a commit applies.
#[derive(Debug)]
pub struct PendingXdgSurfaceData {
    pub geometry: Option<Rect>,
}

impl Default for PendingXdgSurfaceData {
    /// No pending state.
    fn default() -> (r: PendingXdgSurfaceData)
        ensures
            r.geometry is None,
    {
        PendingXdgSurfaceData { geometry: None }
    }
}

impl PendingXdgSurfaceData {
    /// Folds the next pending state into this one: a newer geometry replaces
    /// the older one and is taken out of `next`.
    pub fn merge(&mut self, next: &mut Self)
        ensures
            final (self).geometry == if old(next).geometry is Some {
                old(next).geometry
            } else {
                old(self).geometry
            },
            final (next).geometry is None,
    {
        if let Some(g) = next.geometry.take() {
            self.geometry = Some(g);
        }
    }
}

/// A shell surface: its id, assigned role, configure serials, committed
/// window geometry, and the extents derived from its underlying surface.
pub struct XdgSurface {
    pub id: u64,
    pub role: XdgSurfaceRole,
    pub requested_serial: u32,
    pub acked_serial: Option<u32>,
    pub geometry: Option<Rect>,
    pub extents: Rect,
    pub absolute_desired_extents: Rect,
    /// The extents of the underlying surface's content.
    pub surface_extents: Rect,
    /// The absolute position handed down to the underlying surface.
    pub surface_position: (i32, i32),
    /// Whether the underlying surface already carries a shell extension.
    pub surface_has_ext: bool,
    pub have_initial_commit: bool,
}

/// The surface position the desired extents and the geometry offset yield.
pub open spec fn spec_surface_position(abs: Rect, geometry: Option<Rect>) -> (int, int) {
    match geometry {
        Some(geo) => (abs.x1 - geo.x1, abs.y1 - geo.y1),
        None => (abs.x1 as int, abs.y1 as int),
    }
}

/// The extents a surface reports: its content extents, clipped by the window
/// geometry once one was committed.
pub open spec fn spec_clipped_extents(surface_extents: Rect, geometry: Option<Rect>) -> Rect {
    match geometry {
        Some(geo) => surface_extents.spec_intersect(geo),
        None => surface_extents,
    }
}

impl XdgSurface {
    /// Validity: the position offsets stay representable.
    pub open spec fn position_fits(abs: Rect, geometry: Option<Rect>) -> bool {
        let p = spec_surface_position(abs, geometry);
        i32::MIN <= p.0 <= i32::MAX && i32::MIN <= p.1 <= i32::MAX
    }

    /// A fresh shell surface over a surface with the given content extents.
    pub fn new(id: u64, surface_extents: Rect) -> (r: XdgSurface)
        ensures
            r.id == id,
            r.role == XdgSurfaceRole::Unassigned,
            r.requested_serial == 1,
            r.acked_serial is None,
            r.geometry is None,
            r.extents == surface_extents,
            r.absolute_desired_extents == (Rect { x1: 0, y1: 0, x2: 0, y2: 0 }),
            r.surface_extents == surface_extents,
            r.surface_position == (0i32, 0i32),
            !r.surface_has_ext,
            !r.have_initial_commit,
    {
        XdgSurface {
            id,
            role: XdgSurfaceRole::Unassigned,
            requested_serial: 1,
            acked_serial: None,
            geometry: None,
            extents: surface_extents,
            absolute_desired_extents: Rect::new_empty(0, 0),
            surface_extents,
            surface_position: (0, 0),
            surface_has_ext: false,
            have_initial_commit: false,
        }
    }

    /// Re-derives the underlying surface's absolute position from the desired
    /// extents, offset by the committed geometry's origin.
    fn update_surface_position(&mut self)
        requires
            XdgSurface::position_fits(
                old(self).absolute_desired_extents,
                old(self).geometry,
            ),
        ensures
            *final (self) == (XdgSurface {
                surface_position: final (self).surface_position,
                ..*old(self)
            }),
            final (self).surface_position.0 == spec_surface_position(
                old(self).absolute_desired_extents,
                old(self).geometry,
            ).0,
            final (self).surface_position.1 == spec_surface_position(
                old(self).absolute_desired_extents,
                old(self).geometry,
            ).1,
    {
        let (mut x1, mut y1) = self.absolute_desired_extents.position();
        if let Some(geo) = self.geometry {
            x1 = x1 - geo.x1();
            y1 = y1 - geo.y1();
        }
        self.surface_position = (x1, y1);
    }

    /// Records the extents the placement logic wants the surface at; a moved
    /// origin repositions the underlying surface.
    pub fn set_absolute_desired_extents(&mut self, ext: &Rect)
        requires
            XdgSurface::position_fits(*ext, old(self).geometry),
        ensures
            final (self).absolute_desired_extents == *ext,
            (ext.x1 == old(self).absolute_desired_extents.x1 && ext.y1 == old(
                self,
            ).absolute_desired_extents.y1) ==> final (self).surface_position == old(
                self,
            ).surface_position,
            !(ext.x1 == old(self).absolute_desired_extents.x1 && ext.y1 == old(
                self,
            ).absolute_desired_extents.y1) ==> {
                &&& final (self).surface_position.0 == spec_surface_position(
                    *ext,
                    old(self).geometry,
                ).0
                &&& final (self).surface_position.1 == spec_surface_position(
                    *ext,
                    old(self).geometry,
                ).1
            },
            *final (self) == (XdgSurface {
                absolute_desired_extents: final (self).absolute_desired_extents,
                surface_position: final (self).surface_position,
                ..*old(self)
            }),
    {
        let prev = self.absolute_desired_extents;
        self.absolute_desired_extents = *ext;
        let (px, py) = prev.position();
        let (nx, ny) = ext.position();
        if !(nx == px && ny == py) {
            self.update_surface_position();
        }
    }

    /// Assigns the surface's role; a surface keeps its first role for its
    /// whole lifetime, and a conflicting assignment is a protocol error.
    pub fn set_role(&mut self, role: XdgSurfaceRole) -> (r: Result<(), XdgSurfaceError>)
        ensures
            match r {
                Ok(()) => {
                    &&& old(self).role == XdgSurfaceRole::Unassigned || old(self).role == role
                    &&& *final (self) == (XdgSurface { role, ..*old(self) })
                },
                Err(e) => {
                    &&& old(self).role != XdgSurfaceRole::Unassigned && old(self).role != role
                    &&& e == (XdgSurfaceError::IncompatibleRole {
                        id: old(self).id,
                        old: old(self).role,
                        new: role,
                    })
                    &&& *final (self) == *old(self)
                },
            },
    {
        match (self.role, role) {
            (XdgSurfaceRole::Unassigned, _) => {},
            (o, n) => {
                if !(o == n) {
                    return Err(
                        XdgSurfaceError::IncompatibleRole { id: self.id, old: o, new: n },
                    );
                }
            },
        }
        self.role = role;
        Ok(())
    }

    /// The damage rectangle of the surface's current content: its extents
    /// moved to the buffer's absolute position, appended to the damage list.
    pub fn damage(&self, damage: &mut Vec<Rect>)
        requires
            i32::MIN <= self.surface_extents.x1 + self.surface_position.0 <= i32::MAX,
            i32::MIN <= self.surface_extents.x2 + self.surface_position.0 <= i32::MAX,
            i32::MIN <= self.surface_extents.y1 + self.surface_position.1 <= i32::MAX,
            i32::MIN <= self.surface_extents.y2 + self.surface_position.1 <= i32::MAX,
        ensures
            final (damage)@ == old(damage)@.push(
                Rect {
                    x1: (self.surface_extents.x1 + self.surface_position.0) as i32,
                    y1: (self.surface_extents.y1 + self.surface_position.1) as i32,
                    x2: (self.surface_extents.x2 + self.surface_position.0) as i32,
                    y2: (self.surface_extents.y2 + self.surface_position.1) as i32,
                },
            ),
    {
        let (x, y) = self.surface_position;
        let moved = self.surface_extents.move_(x, y);
        damage.push(moved);
    }

    /// The committed window geometry.
    pub fn geometry(&self) -> (r: Option<Rect>)
        ensures
            r == self.geometry,
    {
        self.geometry
    }

    /// Requests a configure under a fresh serial.
    pub fn do_send_configure(&mut self, client: &mut Client)
        ensures
            final (self).requested_serial == (old(self).requested_serial + 1) % 0x100000000,
            *final (self) == (XdgSurface {
                requested_serial: final (self).requested_serial,
                ..*old(self)
            }),
            final (client).id == old(client).id,
            final (client).objects == old(client).objects,
            final (client).events@ == old(client).events@.push(
                WireEvent::XdgSurfaceConfigure {
                    self_id: old(self).id,
                    serial: final (self).requested_serial,
                },
            ),
    {
        let serial = self.requested_serial.wrapping_add(1);
        self.requested_serial = serial;
        self.send_configure(client, serial);
    }

    /// Queues a configure event under the given serial.
    pub fn send_configure(&self, client: &mut Client, serial: u32)
        ensures
            final (client).id == old(client).id,
            final (client).objects == old(client).objects,
            final (client).events@ == old(client).events@.push(
                WireEvent::XdgSurfaceConfigure { self_id: self.id, serial },
            ),
    {
        client.event(WireEvent::XdgSurfaceConfigure { self_id: self.id, serial });
    }

    /// Attaches the shell extension to the underlying surface; fails when the
    /// surface already carries one.
    pub fn install(&mut self) -> (r: Result<(), XdgSurfaceError>)
        ensures
            match r {
                Ok(()) => {
                    &&& !old(self).surface_has_ext
                    &&& *final (self) == (XdgSurface { surface_has_ext: true, ..*old(self) })
                },
                Err(e) => {
                    &&& old(self).surface_has_ext
                    &&& e == XdgSurfaceError::AlreadyAttached(old(self).id)
                    &&& *final (self) == *old(self)
                },
            },
    {
        if self.surface_has_ext {
            return Err(XdgSurfaceError::AlreadyAttached(self.id));
        }
        self.surface_has_ext = true;
        Ok(())
    }

    /// Accepts the client's acknowledgement of a configure; only the serial
    /// of the latest request counts.
    pub fn ack_configure(&mut self, serial: u32)
        ensures
            old(self).requested_serial == serial ==> *final (self) == (XdgSurface {
                acked_serial: Some(serial),
                ..*old(self)
            }),
            old(self).requested_serial != serial ==> *final (self) == *old(self),
    {
        if self.requested_serial == serial {
            self.acked_serial = Some(serial);
        }
    }

    /// Records the window geometry a commit will apply. A zero-by-zero
    /// geometry is ignored; any other non-positive size is a protocol error.
    pub fn set_window_geometry(
        &self,
        pending: &mut PendingXdgSurfaceData,
        x: i32,
        y: i32,
        width: i32,
        height: i32,
    ) -> (r: Result<(), XdgSurfaceError>)
        requires
            width > 0 ==> x + width <= i32::MAX,
            height > 0 ==> y + height <= i32::MAX,
        ensures
            match r {
                Ok(()) => {
                    &&& if width == 0 && height == 0 {
                        final (pending).geometry == old(pending).geometry
                    } else {
                        final (pending).geometry == Some(
                            Rect { x1: x, y1: y, x2: (x + width) as i32, y2: (y + height) as i32 },
                        )
                    }
                    &&& width == 0 && height == 0 || (width > 0 && height > 0)
                },
                Err(e) => {
                    &&& e == XdgSurfaceError::NonPositiveWidthHeight
                    &&& (width <= 0 || height <= 0) && !(width == 0 && height == 0)
                    &&& final (pending).geometry == old(pending).geometry
                },
            },
    {
        if height == 0 && width == 0 {
            return Ok(());
        }
        if height <= 0 || width <= 0 {
            return Err(XdgSurfaceError::NonPositiveWidthHeight);
        }
        let extents = match Rect::new_sized(x, y, width, height) {
            Some(e) => e,
            None => {
                proof {
                    assert(false);
                }
                vstd::pervasive::unreached()
            },
        };
        pending.geometry = Some(extents);
        Ok(())
    }

    /// Re-derives the reported extents from the surface's content extents and
    /// the committed geometry; reports whether they changed.
    pub fn update_extents(&mut self) -> (changed: bool)
        requires
            old(self).surface_extents.wf(),
            old(self).geometry matches Some(g) ==> g.wf(),
        ensures
            final (self).extents == spec_clipped_extents(
                old(self).surface_extents,
                old(self).geometry,
            ),
            *final (self) == (XdgSurface { extents: final (self).extents, ..*old(self) }),
            changed == (old(self).extents != final (self).extents),
    {
        let old_extents = self.extents;
        let mut new_extents = self.surface_extents;
        if let Some(geometry) = self.geometry {
            new_extents = new_extents.intersect(geometry);
        }
        self.extents = new_extents;
        !(old_extents == new_extents)
    }

    /// Applies a commit: the first commit requests the initial configure, and
    /// a pending geometry is taken, stored, and — when it differs — extents
    /// and surface position are re-derived.
    pub fn before_apply_commit(
        &mut self,
        client: &mut Client,
        pending: &mut PendingXdgSurfaceData,
    )
        requires
            old(self).surface_extents.wf(),
            old(pending).geometry matches Some(g) ==> g.wf(),
            old(self).geometry matches Some(g) ==> g.wf(),
            XdgSurface::position_fits(
                old(self).absolute_desired_extents,
                if old(pending).geometry is Some {
                    old(pending).geometry
                } else {
                    old(self).geometry
                },
            ),
        ensures
            final (self).have_initial_commit,
            final (pending).geometry is None,
            final (self).geometry == if old(pending).geometry is Some {
                old(pending).geometry
            } else {
                old(self).geometry
            },
            old(pending).geometry is Some && old(pending).geometry != old(self).geometry ==> {
                &&& final (self).extents == spec_clipped_extents(
                    old(self).surface_extents,
                    old(pending).geometry,
                )
                &&& final (self).surface_position.0 == spec_surface_position(
                    old(self).absolute_desired_extents,
                    old(pending).geometry,
                ).0
                &&& final (self).surface_position.1 == spec_surface_position(
                    old(self).absolute_desired_extents,
                    old(pending).geometry,
                ).1
            },
            !(old(pending).geometry is Some && old(pending).geometry != old(self).geometry) ==> {
                &&& final (self).extents == old(self).extents
                &&& final (self).surface_position == old(self).surface_position
            },
            final (client).id == old(client).id,
            final (client).objects == old(client).objects,
            !old(self).have_initial_commit ==> final (client).events@ == old(
                client,
            ).events@.push(
                WireEvent::XdgSurfaceConfigure {
                    self_id: old(self).id,
                    serial: final (self).requested_serial,
                },
            ),
            old(self).have_initial_commit ==> final (client).events == old(client).events,
    {
        if !self.have_initial_commit {
            self.do_send_configure(client);
            self.have_initial_commit = true;
        }
        if let Some(geometry) = pending.geometry.take() {
            let prev = self.geometry;
            self.geometry = Some(geometry);
            let changed = match prev {
                Some(p) => !(p == geometry),
                None => true,
            };
            if changed {
                self.update_extents();
                self.update_surface_position();
            }
        }
    }
}

/// Failures of the shell surface's request handling.
#[derive(Copy, Clone, Debug, PartialEq, Eq, Structural)]
pub enum XdgSurfaceError {
    /// The surface already has an attached shell extension.
    AlreadyAttached(u64),
    /// Creating a popup failed.
    XdgPopupError,
    /// The surface already has a different role.
    IncompatibleRole { id: u64, old: XdgSurfaceRole, new: XdgSurfaceRole },
    ClientError(ClientError),
    /// A non-positive width or height was requested.
    NonPositiveWidthHeight,
    /// The surface's role object is not yet destroyed.
    RoleNotYetDestroyed(u64),
    /// The surface still has popups attached.
    PopupsNotYetDestroyed,
    /// The surface already has an assigned role object.
    AlreadyConstructed,
    /// The underlying surface failed.
    WlSurfaceError,
}

impl XdgSurfaceError {
    /// A human-readable description of the error.
    pub fn message(&self) -> (r: &'static str)
        ensures
            r@.len() > 0,
    {
        let s: &'static str = match self {
            XdgSurfaceError::AlreadyAttached(_) => "the surface already has an attached xdg_surface",
            XdgSurfaceError::XdgPopupError => "could not create a popup",
            XdgSurfaceError::IncompatibleRole { .. } => "the surface already has a different role",
            XdgSurfaceError::ClientError(e) => {
                return e.message();
            },
            XdgSurfaceError::NonPositiveWidthHeight => "tried to set a non-positive width or height",
            XdgSurfaceError::RoleNotYetDestroyed(_) => "the xdg_toplevel or xdg_popup is not yet destroyed",
            XdgSurfaceError::PopupsNotYetDestroyed => "the surface still has popups attached",
            XdgSurfaceError::AlreadyConstructed => "the surface already has an assigned xdg_toplevel",
            XdgSurfaceError::WlSurfaceError => "the underlying surface failed",
        };
        proof {
            reveal_strlit("the surface already has an attached xdg_surface");
            reveal_strlit("could not create a popup");
            reveal_strlit("the surface already has a different role");
            reveal_strlit("tried to set a non-positive width or height");
            reveal_strlit("the xdg_toplevel or xdg_popup is not yet destroyed");
            reveal_strlit("the surface still has popups attached");
            reveal_strlit("the surface already has an assigned xdg_toplevel");
            reveal_strlit("the underlying surface failed");
        }
        s
    }
}

} // verus!
