//! The names that most users of the library need, in one place.
pub use crate::crdt::assoc::AssocList;
pub use crate::crdt::document::SVGDocCrdt2;
pub use crate::crdt::frac_index::FracIndex;
pub use crate::crdt::lww_reg::LWWReg;
pub use crate::crdt::node::{LWWNodeMapItem, MoveLog, NodeMapItem};
pub use crate::crdt::uw_map::{Mergeable, UWMap, UWMapKey};
pub use crate::crdt::vtime::VTime;
pub use crate::element::circle::{PartialSVGCircle, SVGCircle};
pub use crate::element::group::{JSNullable, PartialSVGGroup, SVGGroup};
pub use crate::element::lww::circle::LWWSVGCircle;
pub use crate::element::lww::group::LWWSVGGroup;
pub use crate::element::lww::path::LWWSVGPath;
pub use crate::element::lww::rectangle::LWWSVGRectangle;
pub use crate::element::lww::LWWSVGObject;
pub use crate::element::path::{
    PartialSVGPath, PartialSVGPathCommand, SVGPath, SVGPathCommand, SVGPathCommandType,
};
pub use crate::element::rectangle::{PartialSVGRectangle, SVGRectangle};
pub use crate::element::{SVGDocTree, SVGObject};
pub use crate::utility::{
    epoch_now, epoch_now_nanos, gen_str_id, Color, HashableItem, NodeID, ReplicaId, Scalar,
    UWMapItem, UnixEpochTimeNanos, Vec2,
};
