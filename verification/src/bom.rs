//! Bills of materials: what a production run needs of each component, what
//! is short, and what is consumed.
use vstd::prelude::*;
use crate::agentic::model::clone_opt;
use crate::decimal::{
    decimal_minus, decimal_times, difference, max_value, p10, product, DecimalValue,
};

verus! {

/// One component line of a BOM.
#[derive(Debug, Clone)]
pub struct BomLine {
    pub component_item_id: Option<i64>,
    pub quantity_per_assembly: Option<DecimalValue>,
    pub uom_code: Option<String>,
}

#[derive(Debug, Clone)]
pub struct ComponentRequirement {
    pub item_id: i64,
    pub required_quantity: DecimalValue,
    pub uom_code: Option<String>,
}

#[derive(Debug, Clone)]
pub struct ExplodedComponent {
    pub item_id: i64,
    pub quantity: DecimalValue,
    pub level: i32,
    pub uom_code: Option<String>,
}

#[derive(Debug, Clone)]
pub struct ComponentShortage {
    pub item_id: i64,
    pub required: DecimalValue,
    pub available: DecimalValue,
    pub shortage: DecimalValue,
}

#[derive(Debug, Clone)]
pub struct ComponentAvailability {
    pub can_produce: bool,
    pub shortages: Vec<ComponentShortage>,
}

/// What the stock service answered for one requirement: whether the
/// location can cover it, and the quantity available there if the item has
/// a balance at that location.
#[derive(Debug, Clone, Copy)]
pub struct StockCheck {
    pub sufficient: bool,
    pub quantity_available: Option<DecimalValue>,
}

/// One inventory movement of a production run.
#[derive(Debug, Clone, Copy, PartialEq, Eq, Structural)]
pub struct ComponentConsumption {
    pub item_id: i64,
    pub quantity_change: DecimalValue,
}

#[derive(Debug, Clone)]
pub enum BomError {
    /// Production refused: some components are short.
    InsufficientComponents(Vec<ComponentShortage>),
}

/// The quantity per assembly of a line; a line without one counts as zero.
pub open spec fn per_assembly(line: BomLine) -> DecimalValue {
    match line.quantity_per_assembly {
        Some(q) => q,
        None => DecimalValue { mantissa: 0, scale: 0 },
    }
}

/// The product of a line's quantity per assembly and `quantity` stays
/// within what a `Decimal` holds.
pub open spec fn line_product_fits(line: BomLine, quantity: DecimalValue) -> bool {
    &&& per_assembly(line).wf()
    &&& -max_value() * p10(28) <= per_assembly(line).value() * quantity.value() <= max_value() * p10(28)
}

pub open spec fn lines_fit(lines: Seq<BomLine>, quantity: DecimalValue) -> bool {
    &&& quantity.wf()
    &&& forall|i: int| 0 <= i < lines.len() ==> #[trigger] line_product_fits(lines[i], quantity)
}

/// The requirements of a run of `quantity` assemblies: one for each line
/// that names a component, in order, needing the line's quantity per
/// assembly times `quantity` (the product as `Decimal` computes it).
pub open spec fn requirements_of(lines: Seq<BomLine>, quantity: DecimalValue) -> Seq<(i64, DecimalValue, Option<String>)>
    decreases lines.len(),
{
    if lines.len() == 0 {
        Seq::empty()
    } else {
        let rest = requirements_of(lines.drop_last(), quantity);
        let line = lines.last();
        match line.component_item_id {
            Some(id) => rest.push((id, product(per_assembly(line), quantity), line.uom_code)),
            None => rest,
        }
    }
}

pub open spec fn requirement_view(r: ComponentRequirement) -> (i64, DecimalValue, Option<String>) {
    (r.item_id, r.required_quantity, r.uom_code)
}

fn line_product(line: &BomLine, quantity: &DecimalValue) -> (r: DecimalValue)
    requires
        quantity.wf(),
        line_product_fits(*line, *quantity),
    ensures
        r == product(per_assembly(*line), *quantity),
        r.wf(),
{
    let q = match line.quantity_per_assembly {
        Some(q) => q,
        None => DecimalValue::zero(),
    };
    decimal_times(&q, quantity)
}

/// The component requirements of producing `production_quantity`
/// assemblies of a BOM with the given lines.
pub fn calculate_component_requirements(lines: &Vec<BomLine>, production_quantity: DecimalValue) -> (r: Vec<ComponentRequirement>)
    requires
        lines_fit(lines@, production_quantity),
    ensures
        r@.map_values(|x: ComponentRequirement| requirement_view(x)) == requirements_of(lines@, production_quantity),
        forall|i: int| 0 <= i < r.len() ==> (#[trigger] r@[i]).required_quantity.wf(),
{
    let mut out: Vec<ComponentRequirement> = Vec::new();
    let mut i: usize = 0;
    while i < lines.len()
        invariant
            i <= lines.len(),
            lines_fit(lines@, production_quantity),
            out@.map_values(|x: ComponentRequirement| requirement_view(x)) == requirements_of(lines@.subrange(0, i as int), production_quantity),
            forall|k: int| 0 <= k < out.len() ==> (#[trigger] out@[k]).required_quantity.wf(),
        decreases lines.len() - i,
    {
        let line = &lines[i];
        assert(lines@.subrange(0, i as int + 1).drop_last() =~= lines@.subrange(0, i as int));
        assert(lines@.subrange(0, i as int + 1).last() == lines@[i as int]);
        assert(line_product_fits(lines@[i as int], production_quantity));
        match line.component_item_id {
            Some(id) => {
                let q = line_product(line, &production_quantity);
                let req = ComponentRequirement { item_id: id, required_quantity: q, uom_code: clone_opt(&line.uom_code) };
                out.push(req);
                assert(out@.map_values(|x: ComponentRequirement| requirement_view(x)) =~= requirements_of(
                    lines@.subrange(0, i as int + 1),
                    production_quantity,
                ));
            },
            None => {},
        }
        i = i + 1;
    }
    assert(lines@.subrange(0, lines.len() as int) =~= lines@);
    out
}

/// One level of a BOM explosion: each line that names a component, with
/// its quantity for `quantity` assemblies, at `level`. Sub-assemblies are
/// exploded by applying this to each component's own BOM at `level + 1`.
pub fn explode_level(lines: &Vec<BomLine>, quantity: DecimalValue, level: i32) -> (r: Vec<ExplodedComponent>)
    requires
        lines_fit(lines@, quantity),
    ensures
        r.len() == requirements_of(lines@, quantity).len(),
        forall|i: int| 0 <= i < r.len() ==> {
            let e = #[trigger] r@[i];
            let q = requirements_of(lines@, quantity)[i];
            &&& e.item_id == q.0
            &&& e.quantity == q.1
            &&& e.uom_code == q.2
            &&& e.level == level
        },
{
    let reqs = calculate_component_requirements(lines, quantity);
    let mut out: Vec<ExplodedComponent> = Vec::new();
    let mut i: usize = 0;
    while i < reqs.len()
        invariant
            i <= reqs.len(),
            out.len() == i,
            forall|k: int| 0 <= k < i ==> {
                let e = #[trigger] out@[k];
                &&& e.item_id == reqs@[k].item_id
                &&& e.quantity == reqs@[k].required_quantity
                &&& e.uom_code == reqs@[k].uom_code
                &&& e.level == level
            },
        decreases reqs.len() - i,
    {
        let r = &reqs[i];
        out.push(ExplodedComponent { item_id: r.item_id, quantity: r.required_quantity, level, uom_code: clone_opt(&r.uom_code) });
        i = i + 1;
    }
    proof {
        assert forall|k: int| 0 <= k < out.len() implies {
            let e = #[trigger] out@[k];
            let q = requirements_of(lines@, quantity)[k];
            &&& e.item_id == q.0
            &&& e.quantity == q.1
            &&& e.uom_code == q.2
            &&& e.level == level
        } by {
            assert(reqs@.map_values(|x: ComponentRequirement| requirement_view(x))[k] == requirement_view(reqs@[k]));
        }
    }
    out
}

/// What is short of `req` given the stock check: the quantity available
/// (zero without a balance) and what is missing (`Decimal`'s difference).
pub open spec fn shortage_of(req: ComponentRequirement, check: StockCheck) -> (DecimalValue, DecimalValue) {
    match check.quantity_available {
        Some(a) => (a, difference(req.required_quantity, a)),
        None => (DecimalValue { mantissa: 0, scale: 0 }, req.required_quantity),
    }
}

/// The checks can be paired with the requirements, and each difference
/// stays within what a `Decimal` holds.
pub open spec fn checks_fit(reqs: Seq<ComponentRequirement>, checks: Seq<StockCheck>) -> bool {
    &&& reqs.len() == checks.len()
    &&& forall|i: int| 0 <= i < reqs.len() ==> {
        &&& (#[trigger] reqs[i]).required_quantity.wf()
        &&& (checks[i].quantity_available matches Some(a) ==> {
            &&& a.wf()
            &&& -max_value() <= reqs[i].required_quantity.value() - a.value() <= max_value()
        })
    }
}

/// The shortages, in order: one for each requirement whose check says the
/// location cannot cover it.
pub open spec fn shortages_of(reqs: Seq<ComponentRequirement>, checks: Seq<StockCheck>) -> Seq<(i64, DecimalValue, DecimalValue, DecimalValue)>
    decreases reqs.len(),
{
    if reqs.len() == 0 || checks.len() < reqs.len() {
        Seq::empty()
    } else {
        let n = reqs.len() - 1;
        let rest = shortages_of(reqs.drop_last(), checks.subrange(0, n));
        if checks[n].sufficient {
            rest
        } else {
            let (a, s) = shortage_of(reqs[n], checks[n]);
            rest.push((reqs[n].item_id, reqs[n].required_quantity, a, s))
        }
    }
}

pub open spec fn shortage_view(s: ComponentShortage) -> (i64, DecimalValue, DecimalValue, DecimalValue) {
    (s.item_id, s.required, s.available, s.shortage)
}

/// Whether every requirement can be covered, and the shortages of those
/// that cannot, from the stock service's answer for each requirement.
pub fn assess_component_availability(reqs: &Vec<ComponentRequirement>, checks: &Vec<StockCheck>) -> (r: ComponentAvailability)
    requires
        checks_fit(reqs@, checks@),
    ensures
        r.can_produce == (forall|i: int| 0 <= i < checks.len() ==> (#[trigger] checks@[i]).sufficient),
        r.shortages@.map_values(|x: ComponentShortage| shortage_view(x)) == shortages_of(reqs@, checks@),
{
    let mut all = true;
    let mut shortages: Vec<ComponentShortage> = Vec::new();
    let mut i: usize = 0;
    while i < reqs.len()
        invariant
            i <= reqs.len(),
            checks_fit(reqs@, checks@),
            all == (forall|k: int| 0 <= k < i ==> (#[trigger] checks@[k]).sufficient),
            shortages@.map_values(|x: ComponentShortage| shortage_view(x)) == shortages_of(
                reqs@.subrange(0, i as int),
                checks@.subrange(0, i as int),
            ),
        decreases reqs.len() - i,
    {
        let req = &reqs[i];
        let check = checks[i];
        let ghost rs = reqs@.subrange(0, i as int + 1);
        let ghost cs = checks@.subrange(0, i as int + 1);
        assert(rs.drop_last() =~= reqs@.subrange(0, i as int));
        assert(cs.subrange(0, i as int) =~= checks@.subrange(0, i as int));
        assert(rs[i as int] == reqs@[i as int]);
        assert(cs[i as int] == checks@[i as int]);
        if !check.sufficient {
            all = false;
            let (available, shortage) = match check.quantity_available {
                Some(a) => (a, decimal_minus(&req.required_quantity, &a)),
                None => (DecimalValue::zero(), req.required_quantity),
            };
            shortages.push(ComponentShortage { item_id: req.item_id, required: req.required_quantity, available, shortage });
        }
        assert(shortages@.map_values(|x: ComponentShortage| shortage_view(x)) =~= shortages_of(rs, cs));
        i = i + 1;
    }
    assert(reqs@.subrange(0, reqs.len() as int) =~= reqs@);
    assert(checks@.subrange(0, reqs.len() as int) =~= checks@);
    ComponentAvailability { can_produce: all, shortages }
}

/// `d` negated: the same digits with the opposite sign.
pub open spec fn negated(d: DecimalValue) -> DecimalValue {
    DecimalValue { mantissa: (-d.mantissa) as i128, scale: d.scale }
}

/// The inventory movements of a production run: each requirement taken
/// out of stock, in order, or the shortages when the run cannot go ahead.
pub fn plan_component_consumption(availability: &ComponentAvailability, reqs: &Vec<ComponentRequirement>) -> (r: Result<Vec<ComponentConsumption>, BomError>)
    requires
        forall|i: int| 0 <= i < reqs.len() ==> (#[trigger] reqs@[i]).required_quantity.wf(),
    ensures
        !availability.can_produce <==> r is Err,
        r matches Err(BomError::InsufficientComponents(s)) ==> s@ == availability.shortages@,
        r matches Ok(moves) ==> {
            &&& moves.len() == reqs.len()
            &&& forall|i: int| 0 <= i < reqs.len() ==> (#[trigger] moves@[i]) == (ComponentConsumption {
                item_id: reqs@[i].item_id,
                quantity_change: negated(reqs@[i].required_quantity),
            })
        },
{
    if !availability.can_produce {
        let mut copy: Vec<ComponentShortage> = Vec::new();
        let mut j: usize = 0;
        while j < availability.shortages.len()
            invariant
                j <= availability.shortages.len(),
                copy@ == availability.shortages@.subrange(0, j as int),
            decreases availability.shortages.len() - j,
        {
            let s = &availability.shortages[j];
            copy.push(ComponentShortage { item_id: s.item_id, required: s.required, available: s.available, shortage: s.shortage });
            assert(copy@ =~= availability.shortages@.subrange(0, j as int + 1));
            j = j + 1;
        }
        assert(copy@ =~= availability.shortages@);
        return Err(BomError::InsufficientComponents(copy));
    }
    let mut moves: Vec<ComponentConsumption> = Vec::new();
    let mut i: usize = 0;
    while i < reqs.len()
        invariant
            i <= reqs.len(),
            forall|k: int| 0 <= k < reqs.len() ==> (#[trigger] reqs@[k]).required_quantity.wf(),
            moves.len() == i,
            forall|k: int| 0 <= k < i ==> (#[trigger] moves@[k]) == (ComponentConsumption {
                item_id: reqs@[k].item_id,
                quantity_change: negated(reqs@[k].required_quantity),
            }),
        decreases reqs.len() - i,
    {
        let q = reqs[i].required_quantity;
        assert(q.wf());
        moves.push(ComponentConsumption { item_id: reqs[i].item_id, quantity_change: DecimalValue { mantissa: -q.mantissa, scale: q.scale } });
        i = i + 1;
    }
    Ok(moves)
}

/// A run can go ahead exactly when no component is short: every check
/// says the location covers its requirement if and only if the list of
/// shortages is empty.
pub proof fn law_produce_iff_no_shortages(reqs: Seq<ComponentRequirement>, checks: Seq<StockCheck>)
    requires
        reqs.len() == checks.len(),
    ensures
        (forall|i: int| 0 <= i < checks.len() ==> (#[trigger] checks[i]).sufficient) <==> shortages_of(reqs, checks).len() == 0,
    decreases reqs.len(),
{
    if reqs.len() > 0 {
        let n = reqs.len() - 1;
        let cs = checks.subrange(0, n);
        law_produce_iff_no_shortages(reqs.drop_last(), cs);
        if forall|i: int| 0 <= i < checks.len() ==> (#[trigger] checks[i]).sufficient {
            assert forall|i: int| 0 <= i < cs.len() implies (#[trigger] cs[i]).sufficient by {
                assert(cs[i] == checks[i]);
            }
        } else {
            let k = choose|i: int| 0 <= i < checks.len() && !(#[trigger] checks[i]).sufficient;
            if k < n {
                assert(cs[k] == checks[k]);
                assert(!(forall|i: int| 0 <= i < cs.len() ==> (#[trigger] cs[i]).sufficient));
            }
        }
        if forall|i: int| 0 <= i < cs.len() ==> (#[trigger] cs[i]).sufficient {
            if checks[n].sufficient {
                assert forall|i: int| 0 <= i < checks.len() implies (#[trigger] checks[i]).sufficient by {
                    if i < n {
                        assert(cs[i] == checks[i]);
                    }
                }
            }
        }
    }
}

} // verus!
