//! Rules of the Bacchus GPU cluster: what the admission webhook lets through, what the
//! controller creates for a user, and what the synchronizer copies from the request sheet.

pub mod admission;
pub mod cert;
pub mod collect;
pub mod controller;
pub mod crd;
pub mod k8s;
pub mod patch;
pub mod queue;
pub mod review;
pub mod synchronizer;
pub mod text;
