pub mod campaigns;
pub mod functions;
pub mod orders;
pub mod products;
pub mod users;
