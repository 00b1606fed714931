//! Grid-aware scheduling: the carbon intensity and electricity price of the
//! regions where workers run.

use vstd::prelude::*;

verus! {

broadcast use vstd::string::group_string_axioms;

/// Carbon intensity assumed for a worker of unknown region, in grams of CO2
/// per kWh.
pub const DEFAULT_CARBON_INTENSITY: u32 = 500;

/// Electricity price assumed for a worker of unknown region, in cents per
/// kWh.
pub const DEFAULT_ELECTRICITY_COST_CENTS: u32 = 12;

/// The carbon intensity of a region, in grams of CO2 per kWh.
pub open spec fn region_carbon_intensity(region_id: Seq<char>) -> u32 {
    if region_id == "us-west"@ {
        300
    } else if region_id == "us-east"@ {
        450
    } else if region_id == "eu-west"@ {
        250
    } else if region_id == "asia-pacific"@ {
        600
    } else {
        DEFAULT_CARBON_INTENSITY
    }
}

/// The electricity price of a region, in cents per kWh.
pub open spec fn region_electricity_cost(region_id: Seq<char>) -> u32 {
    if region_id == "us-west"@ {
        15
    } else if region_id == "us-east"@ {
        12
    } else if region_id == "eu-west"@ {
        20
    } else if region_id == "asia-pacific"@ {
        8
    } else {
        DEFAULT_ELECTRICITY_COST_CENTS
    }
}

/// The known regions a region id names.
#[derive(PartialEq, Eq, Structural, Clone, Copy, Debug)]
enum Region {
    UsWest,
    UsEast,
    EuWest,
    AsiaPacific,
    Other,
}

spec fn region_of(region_id: Seq<char>) -> Region {
    if region_id == "us-west"@ {
        Region::UsWest
    } else if region_id == "us-east"@ {
        Region::UsEast
    } else if region_id == "eu-west"@ {
        Region::EuWest
    } else if region_id == "asia-pacific"@ {
        Region::AsiaPacific
    } else {
        Region::Other
    }
}

fn classify_region(region_id: &str) -> (r: Region)
    ensures
        r == region_of(region_id@),
{
    let id = region_id.to_string();
    if id == "us-west".to_string() {
        Region::UsWest
    } else if id == "us-east".to_string() {
        Region::UsEast
    } else if id == "eu-west".to_string() {
        Region::EuWest
    } else if id == "asia-pacific".to_string() {
        Region::AsiaPacific
    } else {
        Region::Other
    }
}

/// The live source of regions' carbon intensity.
#[derive(Debug)]
pub struct CarbonIntensityAPI {}

impl CarbonIntensityAPI {
    pub fn new() -> CarbonIntensityAPI {
        CarbonIntensityAPI {  }
    }

    /// The current carbon intensity of a region, in grams of CO2 per kWh.
    pub fn get_carbon_intensity(&self, region_id: &str) -> (g: u32)
        ensures
            g == region_carbon_intensity(region_id@),
    {
        match classify_region(region_id) {
            Region::UsWest => 300,
            Region::UsEast => 450,
            Region::EuWest => 250,
            Region::AsiaPacific => 600,
            Region::Other => DEFAULT_CARBON_INTENSITY,
        }
    }
}

/// What a worker's electricity costs the planet and its owner.
#[derive(Clone, Copy, Debug)]
pub struct GridPricing {
    /// Grams of CO2 per kWh.
    pub carbon_intensity: u32,
    /// Cents per kWh.
    pub electricity_cost_cents: u32,
}

/// The grid data the scheduler consults; the live carbon source is used
/// where grid-aware scheduling is enabled.
#[derive(Debug)]
pub struct GridAwareScheduler {
    carbon_intensity_api: Option<CarbonIntensityAPI>,
}

impl GridAwareScheduler {
    /// Whether the live carbon source is consulted.
    pub closed spec fn uses_live_carbon_data(self) -> bool {
        self.carbon_intensity_api is Some
    }

    /// A scheduler that consults the live carbon source where `enabled`.
    pub fn new(enabled: bool) -> (s: GridAwareScheduler)
        ensures
            s.uses_live_carbon_data() == enabled,
    {
        let carbon_intensity_api = if enabled {
            Some(CarbonIntensityAPI::new())
        } else {
            None
        };
        GridAwareScheduler { carbon_intensity_api }
    }

    /// The carbon intensity of a region, from the live source where it is
    /// consulted and from the built-in table otherwise; in grams of CO2 per
    /// kWh.
    pub fn get_region_carbon_intensity(&self, region_id: &str) -> (g: u32)
        ensures
            g == region_carbon_intensity(region_id@),
    {
        match &self.carbon_intensity_api {
            Some(api) => api.get_carbon_intensity(region_id),
            None => match classify_region(region_id) {
                Region::UsWest => 300,
                Region::UsEast => 450,
                Region::EuWest => 250,
                Region::AsiaPacific => 600,
                Region::Other => DEFAULT_CARBON_INTENSITY,
            },
        }
    }

    /// The electricity price of a region, in cents per kWh.
    pub fn get_region_electricity_cost(&self, region_id: &str) -> (c: u32)
        ensures
            c == region_electricity_cost(region_id@),
    {
        match classify_region(region_id) {
            Region::UsWest => 15,
            Region::UsEast => 12,
            Region::EuWest => 20,
            Region::AsiaPacific => 8,
            Region::Other => DEFAULT_ELECTRICITY_COST_CENTS,
        }
    }

    /// The pricing recorded for a worker that reports `region_id`: its
    /// region's, or the defaults where it reports none.
    pub fn worker_pricing(&self, region_id: &Option<String>) -> (p: GridPricing)
        ensures
            match region_id {
                Some(r) => p.carbon_intensity == region_carbon_intensity(r@)
                    && p.electricity_cost_cents == region_electricity_cost(r@),
                None => p.carbon_intensity == DEFAULT_CARBON_INTENSITY && p.electricity_cost_cents
                    == DEFAULT_ELECTRICITY_COST_CENTS,
            },
    {
        match region_id {
            Some(r) => GridPricing {
                carbon_intensity: self.get_region_carbon_intensity(r.as_str()),
                electricity_cost_cents: self.get_region_electricity_cost(r.as_str()),
            },
            None => GridPricing {
                carbon_intensity: DEFAULT_CARBON_INTENSITY,
                electricity_cost_cents: DEFAULT_ELECTRICITY_COST_CENTS,
            },
        }
    }
}

} // verus!
