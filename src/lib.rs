//! Per-participant performance scoring over an ordered chat log, and the
//! leaderboard policies that rank the resulting records.
//!
//! Numeric scores are fixed-point integers counted in hundredths of a point.
pub mod aggregator;
pub mod emotes;
pub mod event;
pub mod laws;
pub mod leaderboards;
pub mod metadata;
pub mod metrics;
pub mod processor;
pub mod types;

pub use aggregator::{
    aggregate, AggregateError, Aggregator, ChatPerformance, MetadataUpdate, MetricUpdate, Registry,
    RegistryError, Update,
};
pub use emotes::{largest_webp, EmoteCatalog};
pub use event::{ChatMessageFragment, Comment, SevenTVEmote, UserBadge};
pub use leaderboards::{
    CopypastaLeaders, LeaderboardError, LeaderboardInnerState, LeaderboardState, NonVIPS, Overall,
};
pub use metadata::{BadgeCatalog, Badges, BasicInfo, Emotes, SpecialRole};
pub use metrics::{Bits, Emote};
pub use processor::{
    get_leaderboards, ChatLogProcessor, Leaderboard, MetadataComponent, MetricComponent,
    ProcessError,
};
pub use types::{BadgeInformation, MetadataTypes, MetadataView, PerformanceType};
