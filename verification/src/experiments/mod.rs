//! Experiment stacks: `docker compose` against `/data/experiments/<name>/docker-compose.yml`.

pub mod enabled;
pub mod laws;
pub mod list;
pub mod names;
pub mod report_laws;
pub mod run;
pub mod select;
pub mod target;

pub use enabled::{parse_enabled, EnabledList, StartOptions};
pub use list::list;
pub use names::{ExperimentName, ExperimentNameError, ProfileName, ProfileNameError};
pub use run::{start, status, stop, StartRun, StatusRun, StopRun};
pub use select::{Disk, Fallback, Selection};
pub use target::{Profiles, Target, TargetError};
