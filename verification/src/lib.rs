//! Analysis of EVTC combat logs: decoding of the binary layout, classification
//! of combat records, agent identity resolution, buff stack simulation and
//! damage statistics.

pub mod buff;
pub mod event;
pub mod iterator;
pub mod metadata;
pub mod statistics;
pub mod summary;
pub mod table;
pub mod timeseries;
pub mod types;

pub use crate::event::BuffRemoval;
pub use crate::event::Language;
pub use crate::event::typed::Activation;
pub use crate::event::typed::ActivationEvent;
pub use crate::event::typed::Buff;
pub use crate::event::typed::BuffEvent;
pub use crate::event::typed::Damage;
pub use crate::event::typed::DamageEvent;
pub use crate::event::typed::Event;
pub use crate::event::typed::Meta;
pub use crate::event::typed::MetaEvent;
pub use crate::event::typed::Source;
pub use crate::event::typed::SourceEvent;
pub use crate::event::typed::Target;
pub use crate::event::typed::TargetEvent;
pub use crate::event::CastType;
pub use crate::event::EventKind;
pub use crate::event::HitType;
pub use crate::event::MetaEventData;
pub use crate::event::StateChange;
pub use crate::iterator::EventIteratorExt;
pub use crate::metadata::Agent;
pub use crate::metadata::Metadata;
pub use crate::metadata::SkillList;
pub use crate::timeseries::TimeSeries;
pub use crate::types::AgentId;
pub use crate::types::Boss;
pub use crate::types::InstanceId;
pub use crate::types::Profession;
pub use crate::types::SpeciesId;
