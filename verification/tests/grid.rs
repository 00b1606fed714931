use hydra::grid::{CarbonIntensityAPI, GridAwareScheduler};

#[test]
fn regions_have_known_carbon_intensity() {
    let api = CarbonIntensityAPI::new();
    assert_eq!(api.get_carbon_intensity("us-west"), 300);
    assert_eq!(api.get_carbon_intensity("us-east"), 450);
    assert_eq!(api.get_carbon_intensity("eu-west"), 250);
    assert_eq!(api.get_carbon_intensity("asia-pacific"), 600);
    assert_eq!(api.get_carbon_intensity("mars"), 500);
}

#[test]
fn live_and_fallback_tables_agree() {
    let live = GridAwareScheduler::new(true);
    let table = GridAwareScheduler::new(false);
    for r in ["us-west", "us-east", "eu-west", "asia-pacific", "x"] {
        assert_eq!(live.get_region_carbon_intensity(r), table.get_region_carbon_intensity(r));
    }
    assert_eq!(table.get_region_electricity_cost("us-west"), 15);
    assert_eq!(table.get_region_electricity_cost("us-east"), 12);
    assert_eq!(table.get_region_electricity_cost("eu-west"), 20);
    assert_eq!(table.get_region_electricity_cost("asia-pacific"), 8);
    assert_eq!(table.get_region_electricity_cost("x"), 12);
}

#[test]
fn workers_without_region_get_defaults() {
    let g = GridAwareScheduler::new(true);
    let p = g.worker_pricing(&None);
    assert_eq!((p.carbon_intensity, p.electricity_cost_cents), (500, 12));
    let p = g.worker_pricing(&Some("eu-west".to_string()));
    assert_eq!((p.carbon_intensity, p.electricity_cost_cents), (250, 20));
}
