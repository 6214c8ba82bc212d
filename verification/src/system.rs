//! Component events.
//!
//! A running component communicates with the supervisor only through
//! events.  Every event carries a full copy of the originating component,
//! so the renderer can look up its color and name without touching shared
//! state.

use crate::component::{Component, ComponentView};
use vstd::prelude::*;

verus! {

/// What happened to a running component.
pub enum ComponentEventBody {
    /// One decoded line of the process's combined stdout/stderr.
    Output { body: String },
    /// The process was spawned.
    ComponentStart,
    /// The process is gone: it exited or was killed.
    ComponentShutdown,
    /// A service the component depends on was started.
    ServiceStart { service_name: String },
    /// A service the component depended on was stopped.
    ServiceShutdown { service_name: String },
    /// A non-fatal failure; the rest of the run proceeds.
    ComponentError { body: String },
}

/// The mathematical shape of a [`ComponentEventBody`].
pub enum ComponentEventBodyView {
    Output { body: Seq<char> },
    ComponentStart,
    ComponentShutdown,
    ServiceStart { service_name: Seq<char> },
    ServiceShutdown { service_name: Seq<char> },
    ComponentError { body: Seq<char> },
}

impl View for ComponentEventBody {
    type V = ComponentEventBodyView;

    open spec fn view(&self) -> ComponentEventBodyView {
        match self {
            ComponentEventBody::Output { body } => ComponentEventBodyView::Output {
                body: body@,
            },
            ComponentEventBody::ComponentStart => ComponentEventBodyView::ComponentStart,
            ComponentEventBody::ComponentShutdown => ComponentEventBodyView::ComponentShutdown,
            ComponentEventBody::ServiceStart { service_name } => ComponentEventBodyView::ServiceStart {
                service_name: service_name@,
            },
            ComponentEventBody::ServiceShutdown { service_name } => ComponentEventBodyView::ServiceShutdown {
                service_name: service_name@,
            },
            ComponentEventBody::ComponentError { body } => ComponentEventBodyView::ComponentError {
                body: body@,
            },
        }
    }
}

/// An event sent from a running component, with a copy of the component
/// itself.
pub struct ComponentEvent {
    pub component: Component,
    pub body: ComponentEventBody,
}

/// The mathematical shape of a [`ComponentEvent`].
pub struct ComponentEventView {
    pub component: ComponentView,
    pub body: ComponentEventBodyView,
}

impl View for ComponentEvent {
    type V = ComponentEventView;

    open spec fn view(&self) -> ComponentEventView {
        ComponentEventView { component: self.component@, body: self.body@ }
    }
}

impl ComponentEvent {
    /// An output-line event.
    pub fn output(component: Component, body: String) -> (r: Self)
        ensures
            r@.component == component@,
            r@.body == (ComponentEventBodyView::Output { body: body@ }),
    {
        ComponentEvent { component, body: ComponentEventBody::Output { body } }
    }

    /// A non-fatal error event.
    pub fn error(component: Component, body: String) -> (r: Self)
        ensures
            r@.component == component@,
            r@.body == (ComponentEventBodyView::ComponentError { body: body@ }),
    {
        ComponentEvent { component, body: ComponentEventBody::ComponentError { body } }
    }

    /// A process-start event.
    pub fn start(component: Component) -> (r: Self)
        ensures
            r@.component == component@,
            r@.body == ComponentEventBodyView::ComponentStart,
    {
        ComponentEvent { component, body: ComponentEventBody::ComponentStart }
    }

    /// A terminal shutdown event.
    pub fn shutdown(component: Component) -> (r: Self)
        ensures
            r@.component == component@,
            r@.body == ComponentEventBodyView::ComponentShutdown,
    {
        ComponentEvent { component, body: ComponentEventBody::ComponentShutdown }
    }

    /// A service-started event.
    pub fn service_start(component: Component, service_name: String) -> (r: Self)
        ensures
            r@.component == component@,
            r@.body == (ComponentEventBodyView::ServiceStart { service_name: service_name@ }),
    {
        ComponentEvent { component, body: ComponentEventBody::ServiceStart { service_name } }
    }

    /// A service-stopped event.
    pub fn service_shutdown(component: Component, service_name: String) -> (r: Self)
        ensures
            r@.component == component@,
            r@.body == (ComponentEventBodyView::ServiceShutdown { service_name: service_name@ }),
    {
        ComponentEvent { component, body: ComponentEventBody::ServiceShutdown { service_name } }
    }
}

} // verus!
