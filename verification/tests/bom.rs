use rust_decimal::Decimal;
use stateset_core::bom::{
    assess_component_availability, calculate_component_requirements, explode_level, plan_component_consumption,
    BomError, BomLine, ComponentConsumption, ComponentRequirement, StockCheck,
};
use stateset_core::decimal::DecimalValue;

fn d(mantissa: i128, scale: u32) -> DecimalValue {
    DecimalValue { mantissa, scale }
}

fn num(v: &DecimalValue) -> Decimal {
    Decimal::from_i128_with_scale(v.mantissa, v.scale)
}

fn line(item: Option<i64>, qpa: Option<DecimalValue>, uom: Option<&str>) -> BomLine {
    BomLine { component_item_id: item, quantity_per_assembly: qpa, uom_code: uom.map(|u| u.to_string()) }
}

#[test]
fn bom_requirements_scale_each_component() {
    let lines = vec![
        line(Some(10), Some(d(25, 1)), Some("EA")),
        line(None, Some(d(7, 0)), None),
        line(Some(11), None, Some("KG")),
        line(Some(12), Some(d(3, 0)), None),
    ];
    let reqs = calculate_component_requirements(&lines, d(4, 0));
    assert_eq!(reqs.len(), 3);
    assert_eq!(reqs[0].item_id, 10);
    assert_eq!(num(&reqs[0].required_quantity), Decimal::new(10, 0));
    assert_eq!(reqs[0].uom_code.as_deref(), Some("EA"));
    assert_eq!(reqs[1].item_id, 11);
    assert_eq!(num(&reqs[1].required_quantity), Decimal::ZERO);
    assert_eq!(reqs[1].uom_code.as_deref(), Some("KG"));
    assert_eq!(reqs[2].item_id, 12);
    assert_eq!(reqs[2].required_quantity, d(12, 0));
}

#[test]
fn bom_requirements_keep_decimal_scale() {
    let lines = vec![line(Some(1), Some(d(15, 1)), None)];
    let reqs = calculate_component_requirements(&lines, d(25, 1));
    assert_eq!(reqs[0].required_quantity, d(375, 2));
}

#[test]
fn bom_explosion_level_marks_depth() {
    let lines = vec![line(Some(1), Some(d(2, 0)), None), line(None, Some(d(1, 0)), None)];
    let level = explode_level(&lines, d(5, 0), 3);
    assert_eq!(level.len(), 1);
    assert_eq!(level[0].item_id, 1);
    assert_eq!(level[0].quantity, d(10, 0));
    assert_eq!(level[0].level, 3);
}

fn req(item_id: i64, q: DecimalValue) -> ComponentRequirement {
    ComponentRequirement { item_id, required_quantity: q, uom_code: None }
}

#[test]
fn bom_availability_reports_shortages() {
    let reqs = vec![req(1, d(10, 0)), req(2, d(5, 0)), req(3, d(8, 0))];
    let checks = vec![
        StockCheck { sufficient: true, quantity_available: Some(d(20, 0)) },
        StockCheck { sufficient: false, quantity_available: Some(d(3, 0)) },
        StockCheck { sufficient: false, quantity_available: None },
    ];
    let a = assess_component_availability(&reqs, &checks);
    assert!(!a.can_produce);
    assert_eq!(a.shortages.len(), 2);
    assert_eq!(a.shortages[0].item_id, 2);
    assert_eq!(a.shortages[0].available, d(3, 0));
    assert_eq!(a.shortages[0].shortage, d(2, 0));
    assert_eq!(a.shortages[1].item_id, 3);
    assert_eq!(num(&a.shortages[1].available), Decimal::ZERO);
    assert_eq!(a.shortages[1].shortage, d(8, 0));
}

#[test]
fn bom_availability_all_sufficient() {
    let reqs = vec![req(1, d(1, 0))];
    let checks = vec![StockCheck { sufficient: true, quantity_available: Some(d(1, 0)) }];
    let a = assess_component_availability(&reqs, &checks);
    assert!(a.can_produce);
    assert!(a.shortages.is_empty());
}

#[test]
fn bom_consumption_refused_when_short() {
    let reqs = vec![req(2, d(5, 0))];
    let checks = vec![StockCheck { sufficient: false, quantity_available: Some(d(1, 0)) }];
    let a = assess_component_availability(&reqs, &checks);
    match plan_component_consumption(&a, &reqs) {
        Err(BomError::InsufficientComponents(s)) => {
            assert_eq!(s.len(), 1);
            assert_eq!(s[0].shortage, d(4, 0));
        }
        Ok(_) => panic!("expected a refusal"),
    }
}

#[test]
fn bom_consumption_takes_each_requirement_out() {
    let reqs = vec![req(1, d(25, 1)), req(2, d(3, 0))];
    let checks = vec![
        StockCheck { sufficient: true, quantity_available: None },
        StockCheck { sufficient: true, quantity_available: None },
    ];
    let a = assess_component_availability(&reqs, &checks);
    let moves = plan_component_consumption(&a, &reqs).ok().unwrap();
    assert_eq!(moves, vec![
        ComponentConsumption { item_id: 1, quantity_change: d(-25, 1) },
        ComponentConsumption { item_id: 2, quantity_change: d(-3, 0) },
    ]);
}
