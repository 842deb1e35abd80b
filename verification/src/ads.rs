//! The advertising data model: campaign targeting, creatives and their request and response carriers.

use vstd::prelude::*;

verus! {

/// How often one user may see an ad.
pub struct AdFrequencyCapping {
    pub impressions: i32,
    pub time_period: String,
    pub user_type: String,
}

/// A rule excluding placements.
pub struct AdExclusionRule {
    pub rule_type: String,
    pub rule_value: String,
    pub rule_operator: String,
}

/// Demographic targeting.
pub struct AdDemographics {
    pub age_ranges: Option<Vec<String>>,
    pub genders: Option<Vec<String>>,
    pub income_levels: Option<Vec<String>>,
    pub education_levels: Option<Vec<String>>,
    pub relationship_statuses: Option<Vec<String>>,
    pub parental_statuses: Option<Vec<String>>,
}

/// A time-of-day window.
pub struct AdTimeOfDay {
    pub start_hour: i32,
    pub end_hour: i32,
    pub days_of_week: Vec<String>,
}

/// Who an ad group is aimed at.
pub struct AdTargeting {
    pub locations: Option<Vec<String>>,
    pub demographics: Option<AdDemographics>,
    pub interests: Option<Vec<String>>,
    pub keywords: Option<Vec<String>>,
    pub devices: Option<Vec<String>>,
    pub operating_systems: Option<Vec<String>>,
    pub time_of_day: Option<AdTimeOfDay>,
    pub custom_audiences: Option<Vec<String>>,
    pub lookalike_audiences: Option<Vec<String>>,
    pub exclusion_audiences: Option<Vec<String>>,
}

/// Pixel dimensions of an asset.
pub struct AdAssetDimensions {
    pub width: i32,
    pub height: i32,
    pub aspect_ratio: Option<String>,
}

/// One creative asset.
pub struct AdCreativeAsset {
    pub asset_type: String,
    pub asset_url: String,
    pub asset_text: Option<String>,
    pub asset_dimensions: Option<AdAssetDimensions>,
    pub asset_format: Option<String>,
    pub asset_size: Option<i64>,
    pub alt_text: Option<String>,
    pub creative_id: Option<String>,
}

/// A tracking parameter.
pub struct AdCustomParameter {
    pub key: String,
    pub value: String,
}

/// One field of a creative template.
pub struct AdTemplateField {
    pub field_name: String,
    pub field_value: String,
    pub field_type: String,
}

/// Frequency capping as a client sends it.
pub struct AdFrequencyCappingRequest {
    pub impressions: i32,
    pub time_period: String,
    pub user_type: String,
}

/// An exclusion rule as a client sends it.
pub struct AdExclusionRuleRequest {
    pub rule_type: String,
    pub rule_value: String,
    pub rule_operator: String,
}

/// Demographics as a client sends them.
pub struct AdDemographicsRequest {
    pub age_ranges: Option<Vec<String>>,
    pub genders: Option<Vec<String>>,
    pub income_levels: Option<Vec<String>>,
    pub education_levels: Option<Vec<String>>,
    pub relationship_statuses: Option<Vec<String>>,
    pub parental_statuses: Option<Vec<String>>,
}

/// A time window as a client sends it.
pub struct AdTimeOfDayRequest {
    pub start_hour: i32,
    pub end_hour: i32,
    pub days_of_week: Vec<String>,
}

/// Targeting as a client sends it.
pub struct AdTargetingRequest {
    pub locations: Option<Vec<String>>,
    pub demographics: Option<AdDemographicsRequest>,
    pub interests: Option<Vec<String>>,
    pub keywords: Option<Vec<String>>,
    pub devices: Option<Vec<String>>,
    pub operating_systems: Option<Vec<String>>,
    pub time_of_day: Option<AdTimeOfDayRequest>,
    pub custom_audiences: Option<Vec<String>>,
    pub lookalike_audiences: Option<Vec<String>>,
    pub exclusion_audiences: Option<Vec<String>>,
}

/// Dimensions as a client sends them.
pub struct AdAssetDimensionsRequest {
    pub width: i32,
    pub height: i32,
    pub aspect_ratio: Option<String>,
}

/// An asset as a client sends it.
pub struct AdCreativeAssetRequest {
    pub asset_type: String,
    pub asset_url: String,
    pub asset_text: Option<String>,
    pub asset_dimensions: Option<AdAssetDimensionsRequest>,
    pub asset_format: Option<String>,
    pub asset_size: Option<i64>,
    pub alt_text: Option<String>,
    pub creative_id: Option<String>,
}

/// A parameter as a client sends it.
pub struct AdCustomParameterRequest {
    pub key: String,
    pub value: String,
}

/// A template field as a client sends it.
pub struct AdTemplateFieldRequest {
    pub field_name: String,
    pub field_value: String,
    pub field_type: String,
}

/// Frequency capping as reported back.
pub struct AdFrequencyCappingResponse {
    pub impressions: i32,
    pub time_period: String,
    pub user_type: String,
}

/// An exclusion rule as reported back.
pub struct AdExclusionRuleResponse {
    pub rule_type: String,
    pub rule_value: String,
    pub rule_operator: String,
}

/// Demographics as reported back.
pub struct AdDemographicsResponse {
    pub age_ranges: Option<Vec<String>>,
    pub genders: Option<Vec<String>>,
    pub income_levels: Option<Vec<String>>,
    pub education_levels: Option<Vec<String>>,
    pub relationship_statuses: Option<Vec<String>>,
    pub parental_statuses: Option<Vec<String>>,
}

/// A time window as reported back.
pub struct AdTimeOfDayResponse {
    pub start_hour: i32,
    pub end_hour: i32,
    pub days_of_week: Vec<String>,
}

/// Targeting as reported back.
pub struct AdTargetingResponse {
    pub locations: Option<Vec<String>>,
    pub demographics: Option<AdDemographicsResponse>,
    pub interests: Option<Vec<String>>,
    pub keywords: Option<Vec<String>>,
    pub devices: Option<Vec<String>>,
    pub operating_systems: Option<Vec<String>>,
    pub time_of_day: Option<AdTimeOfDayResponse>,
    pub custom_audiences: Option<Vec<String>>,
    pub lookalike_audiences: Option<Vec<String>>,
    pub exclusion_audiences: Option<Vec<String>>,
}

/// Dimensions as reported back.
pub struct AdAssetDimensionsResponse {
    pub width: i32,
    pub height: i32,
    pub aspect_ratio: Option<String>,
}

/// An asset as reported back.
pub struct AdCreativeAssetResponse {
    pub asset_type: String,
    pub asset_url: String,
    pub asset_text: Option<String>,
    pub asset_dimensions: Option<AdAssetDimensionsResponse>,
    pub asset_format: Option<String>,
    pub asset_size: Option<i64>,
    pub alt_text: Option<String>,
    pub creative_id: Option<String>,
}

/// A parameter as reported back.
pub struct AdCustomParameterResponse {
    pub key: String,
    pub value: String,
}

/// A template field as reported back.
pub struct AdTemplateFieldResponse {
    pub field_name: String,
    pub field_value: String,
    pub field_type: String,
}

} // verus!
