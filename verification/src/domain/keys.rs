//! Field names inside the category data of a submission.
use vstd::prelude::*;

verus! {

pub const COMPETITION_NAME: &'static str = "competition_name";
pub const COMPETITION_TYPE: &'static str = "competition_type";
pub const CATALOG_NO: &'static str = "catalog_no";
pub const LEVEL: &'static str = "level";
pub const AWARD_LEVEL: &'static str = "award_level";
pub const OTHER_AWARD: &'static str = "other_award";
pub const HAS_AWARD_LEVEL: &'static str = "has_award_level";
pub const RANK: &'static str = "rank";
pub const IS_SEU_SPORTS_MEET: &'static str = "is_seu_sports_meet";
pub const AWARD_NAME: &'static str = "award_name";
pub const RECOGNITION_LEVEL: &'static str = "recognition_level";
pub const IS_SCHOLARSHIP: &'static str = "is_scholarship";
pub const SCHOOL_HONOR_CATEGORY: &'static str = "school_honor_category";
pub const TITLE: &'static str = "title";
pub const NATURE: &'static str = "nature";
pub const PUBLICATION_TYPE: &'static str = "publication_type";
pub const AUTHOR_ORDER: &'static str = "author_order";
pub const JOURNAL_NAME: &'static str = "journal_name";
pub const PLATFORM: &'static str = "platform";
pub const PUBLICATION_FORM: &'static str = "publication_form";
pub const LINK_OR_INFO: &'static str = "link_or_info";
pub const PROJECT_NAME: &'static str = "project_name";
pub const IDENTITY: &'static str = "identity";
pub const AWARD_LEVEL_OR_NONE: &'static str = "award_level_or_none";
pub const NAME: &'static str = "name";
pub const TYPE: &'static str = "type";
pub const STATUS: &'static str = "status";
pub const RANKING: &'static str = "ranking";
pub const PATENT_NO: &'static str = "patent_no";
pub const CERTIFICATE_TYPE: &'static str = "certificate_type";
pub const CET6_SCORE: &'static str = "cet6_score";
pub const COMPUTER_CATEGORY: &'static str = "computer_category";
pub const EXAM_LEVEL: &'static str = "exam_level";
pub const LANGUAGE_SCORE: &'static str = "language_score";
pub const QUALIFICATION_NAME: &'static str = "qualification_name";

} // verus!
