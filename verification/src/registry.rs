//! The registry of the one currently running external operation.

use vstd::prelude::*;

verus! {

/// Holds at most one handle to the currently spawned render process and at
/// most one cancellation token for the currently running upload.
///
/// The registry only decides what, if anything, there is to cancel; actually
/// terminating the process or signalling the abort belongs to the caller
/// that receives the handle back.
pub struct ProcessRegistry<R, U> {
    render: Option<R>,
    upload: Option<U>,
}

impl<R, U> ProcessRegistry<R, U> {
    /// The handle of the render process now running, if any.
    pub closed spec fn render_handle(&self) -> Option<R> {
        self.render
    }

    /// The cancellation token of the upload now running, if any.
    pub closed spec fn upload_token(&self) -> Option<U> {
        self.upload
    }

    /// An empty registry: nothing is running.
    pub fn new() -> (r: Self)
        ensures
            r.render_handle() is None,
            r.upload_token() is None,
    {
        ProcessRegistry { render: None, upload: None }
    }

    /// Stores the handle of the render process that just started.
    pub fn register_render(&mut self, handle: R)
        ensures
            final(self).render_handle() == Some(handle),
            final(self).upload_token() == old(self).upload_token(),
    {
        self.render = Some(handle);
    }

    /// Drops the render handle when the process ends.
    pub fn clear_render(&mut self)
        ensures
            final(self).render_handle() is None,
            final(self).upload_token() == old(self).upload_token(),
    {
        self.render = None;
    }

    /// Takes the render handle for termination. The caller kills the process
    /// and announces the cancellation exactly when a handle comes back;
    /// with nothing registered this is a no-op.
    pub fn cancel_render(&mut self) -> (h: Option<R>)
        ensures
            h == old(self).render_handle(),
            final(self).render_handle() is None,
            final(self).upload_token() == old(self).upload_token(),
    {
        let mut taken: Option<R> = None;
        core::mem::swap(&mut self.render, &mut taken);
        taken
    }

    /// Stores the cancellation token of the upload that just started.
    pub fn register_upload(&mut self, token: U)
        ensures
            final(self).upload_token() == Some(token),
            final(self).render_handle() == old(self).render_handle(),
    {
        self.upload = Some(token);
    }

    /// Drops the upload token when the upload ends.
    pub fn clear_upload(&mut self)
        ensures
            final(self).upload_token() is None,
            final(self).render_handle() == old(self).render_handle(),
    {
        self.upload = None;
    }

    /// Takes the upload token for cancellation. The caller signals the abort
    /// and announces the cancellation exactly when a token comes back; with
    /// nothing registered this is a no-op.
    pub fn cancel_upload(&mut self) -> (t: Option<U>)
        ensures
            t == old(self).upload_token(),
            final(self).upload_token() is None,
            final(self).render_handle() == old(self).render_handle(),
    {
        let mut taken: Option<U> = None;
        core::mem::swap(&mut self.upload, &mut taken);
        taken
    }
}

} // verus!
