//! The MPI message protocol of the controller.

pub mod diag;
pub mod doorbell;
pub mod ioc_status;
pub mod messages;
pub mod mock_ioc;
pub mod mpi_sge_flags;
pub mod real_ioc;
pub mod replies;
pub mod session;
