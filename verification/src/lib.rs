//! Bookkeeping and topology of a material point method (MPM) simulation:
//! element index tables, quadrature rules, mesh connectivity, particle
//! location, input parsing and the explicit time-step schedule.

pub mod types;
pub mod particle_phase;
pub mod table;
pub mod quadrature;
pub mod quadrilateral;
pub mod triangle;
pub mod hexahedron;
pub mod quadrilateral_gimp;
pub mod hexahedron_gimp;
pub mod node;
pub mod cell;
pub mod particle;
pub mod mesh;
pub mod text;
pub mod mesh_ascii;
pub mod scheme;
pub mod functions;
pub mod analysis;
pub mod error;
pub mod config;
pub mod contact;
pub mod mesh_laws;
pub mod state_variables;
