//! Python packages: versions, requirements, wheels and environments.
pub mod client;
pub mod entry_points;
pub mod markers;
pub mod marker_laws;
pub mod parser;
pub mod parser_laws;
pub mod order_laws;
pub mod pep440;
pub mod version_laws;
pub mod version_request;
pub mod wheel;
pub mod wheel_laws;
pub mod project_laws;
pub mod resolver;
pub mod venv;
pub mod runtime;
pub mod sdist;
