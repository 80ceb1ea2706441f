use owe::effects::{Effect, EffectRef};
use owe::entities::doodad::Doodad;
use owe::entities::resource::{ResourceProperties, ResourceState};
use owe::entities::structure::{Commodities, Risk, Size, StructureProperties, StructureState, Type};
use owe::entities::walker::{WalkerCommodities, WalkerProperties, WalkerState};
use owe::entities::{Entity, EntityType};
use owe::map::lookup::squared_distance_between;
use owe::map::{Cell, CellState, Cursor, CursorError, Direction, Grid, GridEntity, GridError, TraversalType};
use owe::production::exchange::{CommodityExchange, CommodityState, ExchangeError};
use owe::production::staging::{produce, stage_updates};
use owe::production::{Commodity, Producer, ProducerOwner, ProductionStage};
use std::rc::Rc;

struct Rename {
    to: &'static str,
}

impl Effect for Rename {
    fn applied(&self, _target: Entity) -> Entity {
        unreachable!()
    }

    fn apply(&self, other_entity: &mut Entity) {
        match other_entity {
            Entity::Doodad { props } => props.name = self.to.to_owned(),
            Entity::Structure { props, .. } => props.name = self.to.to_owned(),
            _ => (),
        }
    }
}

struct Append {
    letter: char,
}

impl Effect for Append {
    fn applied(&self, _target: Entity) -> Entity {
        unreachable!()
    }

    fn apply(&self, other_entity: &mut Entity) {
        match other_entity {
            Entity::Doodad { props } => props.name.push(self.letter),
            Entity::Structure { props, .. } => props.name.push(self.letter),
            _ => (),
        }
    }
}

struct Yield {
    stage: Option<(&'static str, u32, Vec<(&'static str, u32)>, Vec<(&'static str, u32)>)>,
}

fn commodity(name: &str, amount: u32) -> Commodity {
    Commodity { name: name.to_owned(), amount }
}

impl Producer for Yield {
    fn commodity_produced(&self, _owner: ProducerOwner<'_>) -> Option<ProductionStage> {
        unreachable!()
    }

    fn walker_produced(&self, _owner: ProducerOwner<'_>) -> Option<WalkerProperties> {
        unreachable!()
    }

    fn produce_commodity(&mut self, _owner: &ProducerOwner<'_>) -> Option<ProductionStage> {
        self.stage.as_ref().map(|s| ProductionStage {
            commodity: commodity(s.0, s.1),
            required: s.2.iter().map(|c| commodity(c.0, c.1)).collect(),
            used: s.3.iter().map(|c| commodity(c.0, c.1)).collect(),
        })
    }

    fn produce_walker(&mut self, _owner: &ProducerOwner<'_>) -> Option<WalkerProperties> {
        None
    }
}

fn effect(id: u64, logic: Rc<dyn Effect>) -> EffectRef {
    EffectRef { id, effect: logic }
}

fn doodad(name: &str) -> Entity {
    Entity::Doodad { props: Doodad { name: name.to_owned(), is_removable: false } }
}

fn structure(name: &str, width: u8, height: u8, producer: Option<Box<dyn Producer>>) -> Entity {
    Entity::Structure {
        props: StructureProperties {
            name: name.to_owned(),
            size: Size { width, height },
            max_employees: 5,
            cost: 1000,
            desirability: (0, 0, 0, 0, 0, 0),
            structure_type: Type::Housing,
        },
        state: StructureState {
            current_employees: 0,
            commodities: Commodities::new(),
            risk: Risk { damage: 0, fire: 0 },
        },
        producer,
    }
}

fn resource(name: &str, max: u32, replenish: Option<u32>, current: u32, producer: Option<Box<dyn Producer>>) -> Entity {
    Entity::Resource {
        props: ResourceProperties { name: name.to_owned(), max_amount: max, replenish_amount: replenish },
        state: ResourceState { current_amount: current },
        producer,
    }
}

fn walker(name: &str) -> Entity {
    Entity::Walker {
        props: WalkerProperties { name: name.to_owned(), patrol: None, max_life: None },
        state: WalkerState { current_life: None, commodities: WalkerCommodities::default() },
    }
}

fn name_of(entity: Option<&Entity>) -> Option<String> {
    entity.and_then(|e| match e {
        Entity::Doodad { props } => Some(props.name.clone()),
        Entity::Structure { props, .. } => Some(props.name.clone()),
        Entity::Resource { props, .. } => Some(props.name.clone()),
        Entity::Walker { props, .. } => Some(props.name.clone()),
        _ => None,
    })
}

fn level_of(entity: Option<&Entity>) -> Option<u32> {
    entity.and_then(|e| match e {
        Entity::Resource { state, .. } => Some(state.current_amount),
        _ => None,
    })
}

fn states(g: &Grid, size: usize) -> Vec<CellState> {
    let mut all = Vec::new();
    for y in 0..size {
        for x in 0..size {
            all.push(g.cell_state((x, y)));
        }
    }
    all
}

#[test]
fn empty_grid_takes_an_entity_at_every_cell() {
    for y in 0..3 {
        for x in 0..3 {
            let mut g = Grid::new(3);
            let added = g.add_entity((x, y), doodad("d"));
            assert_eq!(added.map(|r| r.1), Ok(CellState::AvailableEmpty));
            assert_eq!(g.entity_ids(), vec![added.unwrap().0]);
            for cy in 0..3 {
                for cx in 0..3 {
                    let expected = if (cx, cy) == (x, y) {
                        CellState::UnavailableOccupied
                    } else {
                        CellState::AvailableEmpty
                    };
                    assert_eq!(g.cell_state((cx, cy)), expected);
                }
            }
        }
    }
}

#[test]
fn placed_entities_occupy_by_their_kind() {
    let mut g = Grid::new(2);
    assert_eq!(g.add_entity((0, 0), Entity::Road).map(|r| r.1), Ok(CellState::AvailableEmpty));
    assert_eq!(g.cell_state((0, 0)), CellState::AvailableOccupied);
    assert_eq!(g.add_entity((0, 0), Entity::Roadblock).map(|r| r.1), Ok(CellState::AvailableOccupied));
    assert_eq!(g.add_entity((0, 0), walker("w")).map(|r| r.1), Ok(CellState::AvailableOccupied));
    assert_eq!(g.cell_state((0, 0)), CellState::AvailableOccupied);
    assert_eq!(
        g.add_entity((0, 0), resource("r", 1, None, 1, None)).map(|r| r.1),
        Ok(CellState::AvailableOccupied)
    );
    assert_eq!(g.cell_state((0, 0)), CellState::UnavailableOccupied);
    assert_eq!(g.add_entity((0, 0), Entity::Road).map(|r| r.1), Err(GridError::CellUnavailable));
    assert_eq!(g.add_entity((0, 0), walker("w")).map(|r| r.1), Err(GridError::CellUnavailable));
    assert_eq!(g.cell_state((2, 0)), CellState::OutOfBounds);
    assert_eq!(g.cell_state((0, 2)), CellState::OutOfBounds);
    assert_eq!(g.entity_ids().len(), 4);
}

#[test]
fn identities_are_fresh() {
    let mut g = Grid::new(4);
    let mut ids = Vec::new();
    for y in 0..4 {
        for x in 0..4 {
            ids.push(g.add_entity((x, y), Entity::Road).unwrap().0);
        }
    }
    assert_eq!(g.entity_ids(), ids);
    let mut sorted = ids.clone();
    sorted.sort();
    sorted.dedup();
    assert_eq!(sorted.len(), 16);
}

#[test]
fn identity_in_use_is_refused() {
    let mut g = Grid::new(3);
    assert_eq!(g.place_entity((0, 0), Entity::Road, 7), Ok((7, CellState::AvailableEmpty)));
    assert_eq!(g.place_entity((1, 1), Entity::Road, 7), Err(GridError::CellUnavailable));
    assert_eq!(g.cell_state((1, 1)), CellState::AvailableEmpty);
    assert_eq!(g.entity_ids(), vec![7]);
    assert_eq!(g.place_entity((1, 1), Entity::Road, 8), Ok((8, CellState::AvailableEmpty)));
    assert_eq!(g.place_entity((0, 0), walker("w"), 9), Ok((9, CellState::AvailableOccupied)));
    assert_eq!(g.entity_ids(), vec![7, 8, 9]);
}

#[test]
fn structure_over_a_taken_cell_is_refused_and_nothing_changes() {
    let mut g = Grid::new(4);
    let tree = g.add_entity((2, 2), doodad("d")).unwrap().0;
    let before = states(&g, 4);

    assert_eq!(g.add_entity((1, 1), structure("s", 2, 2, None)).map(|r| r.1), Err(GridError::CellUnavailable));
    assert_eq!(g.add_entity((2, 1), structure("s", 1, 2, None)).map(|r| r.1), Err(GridError::CellUnavailable));
    assert_eq!(g.add_entity((3, 3), structure("s", 2, 1, None)).map(|r| r.1), Err(GridError::CellUnavailable));
    assert_eq!(g.add_entity((3, 3), structure("s", 1, 2, None)).map(|r| r.1), Err(GridError::CellUnavailable));
    assert_eq!(g.add_entity((0, 0), structure("s", 5, 1, None)).map(|r| r.1), Err(GridError::CellUnavailable));
    assert_eq!(g.add_entity((0, 0), structure("s", 255, 255, None)).map(|r| r.1), Err(GridError::CellUnavailable));

    assert_eq!(states(&g, 4), before);
    assert_eq!(g.entity_ids(), vec![tree]);
    assert_eq!(g.find_named_entities(EntityType::Structure, "s".to_owned()).len(), 0);
}

#[test]
fn structure_is_placed_over_roads_and_walkers() {
    let mut g = Grid::new(3);
    assert_eq!(g.add_entity((1, 0), Entity::Road).map(|r| r.1), Ok(CellState::AvailableEmpty));
    assert_eq!(g.add_entity((1, 1), walker("w")).map(|r| r.1), Ok(CellState::AvailableEmpty));
    assert_eq!(g.add_entity((0, 0), structure("s", 2, 2, None)).map(|r| r.1), Ok(CellState::AvailableEmpty));
    assert_eq!(g.add_entity((1, 0), structure("t", 1, 1, None)).map(|r| r.1), Err(GridError::CellUnavailable));
    assert_eq!(g.cell_state((1, 0)), CellState::UnavailableOccupied);
    assert_eq!(g.cell_state((1, 1)), CellState::UnavailableOccupied);
    assert_eq!(g.entity_ids().len(), 3);
}

#[test]
fn structure_without_cells_is_placed_nowhere() {
    let mut g = Grid::new(2);
    assert_eq!(g.add_entity((0, 0), structure("s", 0, 3, None)).map(|r| r.1), Ok(CellState::AvailableEmpty));
    assert_eq!(g.add_entity((1, 1), structure("s", 9, 0, None)).map(|r| r.1), Ok(CellState::AvailableEmpty));
    assert_eq!(states(&g, 2), vec![CellState::AvailableEmpty; 4]);
    assert_eq!(g.entity_ids().len(), 0);
    assert_eq!(g.add_entity((2, 0), structure("s", 0, 0, None)).map(|r| r.1), Err(GridError::CellUnavailable));
}

#[test]
fn removal_clears_every_cell_of_a_structure() {
    for at in [(1, 1), (2, 1), (1, 2), (2, 2), (1, 3), (2, 3)] {
        let mut g = Grid::new(4);
        let road = g.add_entity((2, 2), Entity::Road).unwrap().0;
        let id = g.add_entity((1, 1), structure("s", 2, 3, None)).unwrap().0;
        assert_eq!(name_of(g.entity(at, id)), Some("s".to_owned()));
        assert_eq!(g.remove_entity(at, id), Ok(CellState::UnavailableOccupied));
        for y in 0..4 {
            for x in 0..4 {
                let expected = if (x, y) == (2, 2) {
                    CellState::AvailableOccupied
                } else {
                    CellState::AvailableEmpty
                };
                assert_eq!(g.cell_state((x, y)), expected);
                assert!(g.entity((x, y), id).is_none());
            }
        }
        assert_eq!(g.entity_ids(), vec![road]);
        assert_eq!(g.remove_entity(at, id), if at == (2, 2) {
            Err(GridError::EntityMissing)
        } else {
            Err(GridError::CellUnavailable)
        });
    }
}

#[test]
fn removal_names_what_is_missing() {
    let mut g = Grid::new(3);
    let road = g.add_entity((0, 0), Entity::Road).unwrap().0;
    let tree = g.add_entity((1, 1), doodad("d")).unwrap().0;
    assert_eq!(g.remove_entity((0, 0), tree), Err(GridError::EntityMissing));
    assert_eq!(g.remove_entity((1, 1), road), Err(GridError::EntityMissing));
    assert_eq!(g.remove_entity((2, 2), road), Err(GridError::CellUnavailable));
    assert_eq!(g.remove_entity((3, 0), road), Err(GridError::CellUnavailable));
    assert_eq!(g.entity_ids(), vec![road, tree]);
    assert_eq!(g.remove_entity((0, 0), road), Ok(CellState::AvailableOccupied));
    assert_eq!(g.remove_entity((1, 1), tree), Ok(CellState::UnavailableOccupied));
    assert_eq!(g.entity_ids().len(), 0);
}

#[test]
fn entity_is_found_on_its_cells_only() {
    let mut g = Grid::new(3);
    let id = g.add_entity((1, 0), structure("s", 2, 1, None)).unwrap().0;
    assert_eq!(name_of(g.entity((1, 0), id)), Some("s".to_owned()));
    assert_eq!(name_of(g.entity((2, 0), id)), Some("s".to_owned()));
    assert!(g.entity((0, 0), id).is_none());
    assert!(g.entity((1, 1), id).is_none());
    assert!(g.entity((1, 0), id + 1).is_none());
    assert!(g.entity((7, 7), id).is_none());
}

fn sweep_of(size: usize, direction: Direction, start: (usize, usize), steps: usize) -> Vec<(usize, usize)> {
    let mut g = Grid::new(size);
    let mut e = CommodityExchange::new();
    let mut cursor = Cursor::new(1, direction, start);
    let mut visited = vec![cursor.position()];
    for _ in 0..steps {
        assert_eq!(cursor.process_and_advance(&mut g, &mut e), Ok(()));
        visited.push(cursor.position());
    }
    visited
}

#[test]
fn full_sweep_visits_every_cell_once_and_returns() {
    for size in [1usize, 2, 3, 4] {
        for direction in [Direction::Up, Direction::Down, Direction::Left, Direction::Right] {
            for y in 0..size {
                for x in 0..size {
                    let visited = sweep_of(size, direction, (x, y), size * size);
                    assert_eq!(visited[size * size], (x, y));
                    let mut cells = visited[..size * size].to_vec();
                    cells.sort();
                    cells.dedup();
                    assert_eq!(cells.len(), size * size);
                    assert!(cells.iter().all(|c| c.0 < size && c.1 < size));
                }
            }
        }
    }
}

#[test]
fn sweeps_run_in_the_order_of_their_direction() {
    assert_eq!(
        sweep_of(3, Direction::Right, (0, 0), 9),
        vec![(0, 0), (1, 0), (2, 0), (0, 1), (1, 1), (2, 1), (0, 2), (1, 2), (2, 2), (0, 0)]
    );
    assert_eq!(
        sweep_of(3, Direction::Left, (0, 0), 9),
        vec![(0, 0), (2, 2), (1, 2), (0, 2), (2, 1), (1, 1), (0, 1), (2, 0), (1, 0), (0, 0)]
    );
    assert_eq!(
        sweep_of(3, Direction::Down, (1, 1), 9),
        vec![(1, 1), (1, 2), (2, 0), (2, 1), (2, 2), (0, 0), (0, 1), (0, 2), (1, 0), (1, 1)]
    );
    assert_eq!(
        sweep_of(3, Direction::Up, (1, 1), 9),
        vec![(1, 1), (1, 0), (0, 2), (0, 1), (0, 0), (2, 2), (2, 1), (2, 0), (1, 2), (1, 1)]
    );
}

#[test]
fn next_cell_wraps_round() {
    assert_eq!(Cursor::calculate_next_cell(0, 0, 1, 1, &Direction::Right), (0, 0));
    assert_eq!(Cursor::calculate_next_cell(0, 0, 1, 1, &Direction::Up), (0, 0));
    assert_eq!(Cursor::calculate_next_cell(4, 1, 5, 2, &Direction::Right), (0, 0));
    assert_eq!(Cursor::calculate_next_cell(4, 0, 5, 2, &Direction::Right), (0, 1));
    assert_eq!(Cursor::calculate_next_cell(0, 0, 5, 2, &Direction::Left), (4, 1));
    assert_eq!(Cursor::calculate_next_cell(0, 1, 5, 2, &Direction::Left), (4, 0));
    assert_eq!(Cursor::calculate_next_cell(4, 1, 5, 2, &Direction::Down), (0, 0));
    assert_eq!(Cursor::calculate_next_cell(3, 1, 5, 2, &Direction::Down), (4, 0));
    assert_eq!(Cursor::calculate_next_cell(3, 0, 5, 2, &Direction::Down), (3, 1));
    assert_eq!(Cursor::calculate_next_cell(0, 0, 5, 2, &Direction::Up), (4, 1));
    assert_eq!(Cursor::calculate_next_cell(3, 0, 5, 2, &Direction::Up), (2, 1));
    assert_eq!(Cursor::calculate_next_cell(3, 1, 5, 2, &Direction::Up), (3, 0));
}

#[test]
fn effect_is_registered_at_most_once() {
    let mut g = Grid::new(2);
    let logic: Rc<dyn Effect> = Rc::new(Rename { to: "x" });
    let first = effect(1, logic.clone());
    let same = effect(1, Rc::new(Rename { to: "y" }));
    let other = effect(2, logic.clone());

    assert_eq!(g.remove_cell_effect((0, 0), &first), Err(GridError::EffectMissing));
    assert_eq!(g.add_cell_effect((0, 0), effect(1, logic.clone())), Ok(CellState::AvailableEmpty));
    assert_eq!(g.add_cell_effect((0, 0), effect(1, logic.clone())), Err(GridError::EffectPresent));
    assert_eq!(g.add_cell_effect((0, 0), same), Err(GridError::EffectPresent));
    assert_eq!(g.add_cell_effect((0, 0), effect(2, logic.clone())), Ok(CellState::AvailableEmpty));
    assert_eq!(g.add_cell_effect((1, 0), effect(1, logic.clone())), Ok(CellState::AvailableEmpty));
    assert!(g.is_effect_in_cell((0, 0), &first));
    assert!(g.is_effect_in_cell((0, 0), &other));
    assert!(g.is_effect_in_cell((1, 0), &first));
    assert!(!g.is_effect_in_cell((1, 0), &other));
    assert!(!g.is_effect_in_cell((0, 1), &first));
    assert!(!g.is_effect_in_cell((5, 5), &first));
    assert!(!g.is_effect_global(&first));

    assert_eq!(g.remove_cell_effect((0, 0), &first), Ok(CellState::AvailableEmpty));
    assert_eq!(g.remove_cell_effect((0, 0), &first), Err(GridError::EffectMissing));
    assert!(g.is_effect_in_cell((0, 0), &other));
    assert!(g.is_effect_in_cell((1, 0), &first));
    assert_eq!(g.add_cell_effect((0, 0), effect(1, logic.clone())), Ok(CellState::AvailableEmpty));
    assert_eq!(g.clear_cell_effects((0, 0)), Ok(CellState::AvailableEmpty));
    assert_eq!(g.clear_cell_effects((0, 0)), Ok(CellState::AvailableEmpty));
    assert_eq!(g.clear_cell_effects((2, 2)), Err(GridError::CellUnavailable));
    assert!(!g.is_effect_in_cell((0, 0), &first));
    assert!(!g.is_effect_in_cell((0, 0), &other));
    assert!(g.is_effect_in_cell((1, 0), &first));

    assert_eq!(g.remove_global_effect(&first), Err(GridError::EffectMissing));
    assert_eq!(g.add_global_effect(effect(1, logic.clone())), Ok(()));
    assert_eq!(g.add_global_effect(effect(1, logic.clone())), Err(GridError::EffectPresent));
    assert_eq!(g.remove_global_effect(&first), Ok(()));
    assert_eq!(g.remove_global_effect(&first), Err(GridError::EffectMissing));
}

#[test]
fn grid_starts_with_the_global_effects_given() {
    let logic: Rc<dyn Effect> = Rc::new(Rename { to: "x" });
    let mut g = Grid::with_global_effects(2, vec![effect(4, logic.clone()), effect(5, logic.clone())]);
    assert!(g.is_effect_global(&effect(4, logic.clone())));
    assert!(g.is_effect_global(&effect(5, logic.clone())));
    assert!(!g.is_effect_global(&effect(6, logic.clone())));
    assert_eq!(g.add_global_effect(effect(5, logic.clone())), Err(GridError::EffectPresent));
    assert_eq!(states(&g, 2), vec![CellState::AvailableEmpty; 4]);
    assert_eq!(g.dimensions(), (2, 2));
    assert_eq!(Grid::new(0).dimensions(), (0, 0));
    assert_eq!(Grid::new(0).cell_state((0, 0)), CellState::OutOfBounds);
}

#[test]
fn cell_effects_reach_the_window_and_no_further() {
    for (range, reached) in [(0usize, vec![(2, 2)]), (1, vec![(1, 1), (2, 2), (3, 3), (1, 3)]), (2, vec![
        (0, 0),
        (1, 1),
        (2, 2),
        (3, 3),
        (1, 3),
        (4, 4),
        (0, 4),
    ])] {
        let mut g = Grid::new(6);
        let mut e = CommodityExchange::new();
        let cells = [(0, 0), (1, 1), (2, 2), (3, 3), (1, 3), (4, 4), (0, 4), (5, 5), (5, 2), (2, 5)];
        let mut ids = Vec::new();
        for at in cells {
            ids.push(g.add_entity(at, doodad("d")).unwrap().0);
        }
        assert_eq!(g.add_cell_effect((2, 2), effect(1, Rc::new(Rename { to: "hit" }))), Ok(
            CellState::UnavailableOccupied
        ));
        let mut cursor = Cursor::new(range, Direction::Right, (2, 2));
        assert_eq!(cursor.process_and_advance(&mut g, &mut e), Ok(()));
        assert_eq!(cursor.position(), (3, 2));
        for (at, id) in cells.iter().zip(ids.iter()) {
            let expected = if reached.contains(at) {
                "hit"
            } else {
                "d"
            };
            assert_eq!(name_of(g.entity(*at, *id)), Some(expected.to_owned()));
        }
    }
}

#[test]
fn effects_of_other_cells_are_not_applied() {
    let mut g = Grid::new(3);
    let mut e = CommodityExchange::new();
    let id = g.add_entity((1, 1), doodad("d")).unwrap().0;
    assert_eq!(g.add_cell_effect((1, 0), effect(1, Rc::new(Rename { to: "hit" }))), Ok(
        CellState::AvailableEmpty
    ));
    let mut cursor = Cursor::new(5, Direction::Right, (1, 1));
    assert_eq!(cursor.process_and_advance(&mut g, &mut e), Ok(()));
    assert_eq!(name_of(g.entity((1, 1), id)), Some("d".to_owned()));
    let mut cursor = Cursor::new(5, Direction::Right, (1, 0));
    assert_eq!(cursor.process_and_advance(&mut g, &mut e), Ok(()));
    assert_eq!(name_of(g.entity((1, 1), id)), Some("hit".to_owned()));
}

#[test]
fn effects_are_applied_in_the_order_of_registration() {
    let mut g = Grid::new(3);
    let mut e = CommodityExchange::new();
    let id = g.add_entity((0, 0), doodad("d")).unwrap().0;
    assert!(g.add_cell_effect((0, 0), effect(1, Rc::new(Append { letter: 'a' }))).is_ok());
    assert!(g.add_cell_effect((0, 0), effect(2, Rc::new(Rename { to: "n" }))).is_ok());
    assert!(g.add_cell_effect((0, 0), effect(3, Rc::new(Append { letter: 'b' }))).is_ok());
    assert!(g.add_cell_effect((0, 0), effect(4, Rc::new(Append { letter: 'c' }))).is_ok());
    let mut cursor = Cursor::new(0, Direction::Right, (0, 0));
    assert_eq!(cursor.process_and_advance(&mut g, &mut e), Ok(()));
    assert_eq!(name_of(g.entity((0, 0), id)), Some("nbc".to_owned()));
}

#[test]
fn structure_in_the_window_is_affected_once() {
    let mut g = Grid::new(4);
    let mut e = CommodityExchange::new();
    let id = g.add_entity((1, 0), structure("s", 3, 3, None)).unwrap().0;
    assert_eq!(g.add_cell_effect((0, 3), effect(1, Rc::new(Append { letter: '!' }))), Ok(
        CellState::AvailableEmpty
    ));
    let mut cursor = Cursor::new(1, Direction::Right, (0, 3));
    assert_eq!(cursor.process_and_advance(&mut g, &mut e), Ok(()));
    assert_eq!(name_of(g.entity((3, 0), id)), Some("s!".to_owned()));
    assert_eq!(name_of(g.entity((1, 2), id)), Some("s!".to_owned()));
}

#[test]
fn global_effects_are_applied_when_the_sweep_starts_over() {
    let mut g = Grid::new(2);
    let mut e = CommodityExchange::new();
    let id = g.add_entity((0, 0), doodad("d")).unwrap().0;
    assert_eq!(g.add_global_effect(effect(1, Rc::new(Append { letter: '+' }))), Ok(()));
    let mut cursor = Cursor::new(0, Direction::Right, (0, 0));
    let mut names = Vec::new();
    for _ in 0..8 {
        assert_eq!(cursor.process_and_advance(&mut g, &mut e), Ok(()));
        names.push(name_of(g.entity((0, 0), id)).unwrap());
    }
    assert_eq!(names, vec!["d", "d", "d", "d+", "d+", "d+", "d+", "d++"]);
}

#[test]
fn resource_gives_what_it_produced_and_replenishes() {
    let mut plain = resource("r", 5, Some(1), 2, Some(Box::new(Yield { stage: Some(("c", 1, vec![], vec![])) })));
    let updates = produce(&mut plain);
    assert_eq!(updates, vec![(commodity("c", 1), CommodityState::Available)]);
    assert_eq!(level_of(Some(&plain)), Some(2));

    let mut drained = resource("r", 5, None, 2, Some(Box::new(Yield { stage: Some(("c", 7, vec![], vec![])) })));
    assert_eq!(produce(&mut drained), vec![(commodity("c", 7), CommodityState::Available)]);
    assert_eq!(level_of(Some(&drained)), Some(0));

    let mut full = resource("r", 5, Some(3), 4, Some(Box::new(Yield { stage: None })));
    assert_eq!(produce(&mut full), vec![]);
    assert_eq!(level_of(Some(&full)), Some(5));

    let mut rising = resource("r", 9, Some(3), 4, Some(Box::new(Yield { stage: None })));
    assert_eq!(produce(&mut rising), vec![]);
    assert_eq!(level_of(Some(&rising)), Some(7));

    let mut over = resource("r", 5, Some(1), 8, Some(Box::new(Yield { stage: None })));
    assert_eq!(produce(&mut over), vec![]);
    assert_eq!(level_of(Some(&over)), Some(5));

    let mut large = resource("r", u32::MAX, Some(u32::MAX), u32::MAX, Some(Box::new(Yield { stage: None })));
    assert_eq!(produce(&mut large), vec![]);
    assert_eq!(level_of(Some(&large)), Some(u32::MAX));

    let mut idle = resource("r", 5, Some(1), 2, None);
    assert_eq!(produce(&mut idle), vec![]);
    assert_eq!(level_of(Some(&idle)), Some(2));
}

#[test]
fn stock_is_taken_from_and_added_to_within_its_bounds() {
    let mut state = ResourceState { current_amount: 10 };
    state.extract(3);
    assert_eq!(state.current_amount, 7);
    state.extract(7);
    assert_eq!(state.current_amount, 0);
    state.extract(1);
    assert_eq!(state.current_amount, 0);
    state.replenish(4, 10);
    assert_eq!(state.current_amount, 4);
    state.replenish(5, 10);
    assert_eq!(state.current_amount, 9);
    state.replenish(1, 10);
    assert_eq!(state.current_amount, 10);
    state.replenish(u32::MAX, 10);
    assert_eq!(state.current_amount, 10);
    state.replenish(1, 3);
    assert_eq!(state.current_amount, 3);
}

#[test]
fn structure_keeps_what_it_produced_and_reports_its_stage() {
    let stage = Some(("c0", 100, vec![("c2", 3), ("c3", 1)], vec![("c4", 2)]));
    let mut s = structure("s", 1, 1, Some(Box::new(Yield { stage })));
    let expected = vec![
        (commodity("c2", 3), CommodityState::Required),
        (commodity("c3", 1), CommodityState::Required),
        (commodity("c4", 2), CommodityState::Used),
        (commodity("c0", 100), CommodityState::Available),
    ];
    assert_eq!(produce(&mut s), expected);
    assert_eq!(produce(&mut s), expected);
    match &s {
        Entity::Structure { state, .. } => {
            assert_eq!(state.commodities.amount_of("c0"), 200);
            assert_eq!(state.commodities.amount_of("c2"), 0);
            assert_eq!(state.commodities.data, vec![commodity("c0", 200)]);
        }
        _ => panic!("the structure is gone"),
    }

    let mut idle = structure("s", 1, 1, Some(Box::new(Yield { stage: None })));
    assert_eq!(produce(&mut idle), vec![]);
    let mut bare = structure("s", 1, 1, None);
    assert_eq!(produce(&mut bare), vec![]);
    assert_eq!(produce(&mut doodad("d")), vec![]);
    assert_eq!(produce(&mut walker("w")), vec![]);
    assert_eq!(produce(&mut Entity::Road), vec![]);

    assert_eq!(
        stage_updates(ProductionStage { commodity: commodity("a", 1), required: vec![], used: vec![] }),
        vec![(commodity("a", 1), CommodityState::Available)]
    );
}

#[test]
fn ledger_adds_by_name_and_stops_at_the_largest_amount() {
    let mut ledger = Commodities::new();
    assert_eq!(ledger.amount_of("a"), 0);
    ledger.credit(&commodity("a", 2));
    ledger.credit(&commodity("b", 5));
    ledger.credit(&commodity("a", 3));
    assert_eq!(ledger.amount_of("a"), 5);
    assert_eq!(ledger.amount_of("b"), 5);
    assert_eq!(ledger.amount_of("c"), 0);
    assert_eq!(ledger.data, vec![commodity("a", 5), commodity("b", 5)]);
    ledger.credit(&commodity("b", u32::MAX - 5));
    assert_eq!(ledger.amount_of("b"), u32::MAX);
    ledger.credit(&commodity("b", 1));
    assert_eq!(ledger.amount_of("b"), u32::MAX);
    assert_eq!(WalkerCommodities::default().data, vec![]);
}

#[test]
fn production_happens_on_the_cell_of_the_cursor_only() {
    let mut g = Grid::new(2);
    let mut e = CommodityExchange::new();
    let here = g
        .add_entity((0, 0), resource("r", 9, None, 9, Some(Box::new(Yield { stage: Some(("c", 2, vec![], vec![])) }))))
        .unwrap()
        .0;
    let there = g
        .add_entity((1, 1), resource("r", 9, None, 9, Some(Box::new(Yield { stage: Some(("c", 4, vec![], vec![])) }))))
        .unwrap()
        .0;
    let live = g.entity_ids();
    let mut cursor = Cursor::new(1, Direction::Right, (0, 0));

    assert_eq!(cursor.process_and_advance(&mut g, &mut e), Ok(()));
    assert_eq!(level_of(g.entity((0, 0), here)), Some(7));
    assert_eq!(level_of(g.entity((1, 1), there)), Some(9));
    assert_eq!(e.amount_available_of("c", &live), 2);
    assert_eq!(e.entities_that_have("c", &live), vec![here]);

    assert_eq!(cursor.process_and_advance(&mut g, &mut e), Ok(()));
    assert_eq!(cursor.process_and_advance(&mut g, &mut e), Ok(()));
    assert_eq!(e.amount_available_of("c", &live), 2);
    assert_eq!(cursor.process_and_advance(&mut g, &mut e), Ok(()));
    assert_eq!(cursor.position(), (0, 0));
    assert_eq!(level_of(g.entity((0, 0), here)), Some(7));
    assert_eq!(level_of(g.entity((1, 1), there)), Some(5));
    assert_eq!(e.amount_available_of("c", &live), 6);
    assert_eq!(e.entities_that_have("c", &live), vec![here, there]);

    assert_eq!(g.remove_entity((0, 0), here), Ok(CellState::UnavailableOccupied));
    assert_eq!(e.amount_available_of("c", &g.entity_ids()), 4);
    assert_eq!(e.entities_that_have("c", &g.entity_ids()), vec![there]);
    for _ in 0..4 {
        assert_eq!(cursor.process_and_advance(&mut g, &mut e), Ok(()));
    }
    assert_eq!(e.amount_available_of("c", &live), 4);
    assert_eq!(e.entities_that_have("c", &live), vec![there]);
}

#[test]
fn amount_is_the_sum_over_the_live_entities() {
    let mut e = CommodityExchange::new();
    let owner = structure("s", 1, 1, None);
    let everyone = vec![1, 2, 3];
    for (id, amount) in [(1u128, 5u32), (2, 7), (3, 11)] {
        assert_eq!(e.update_state(&owner, id, &commodity("c", amount), CommodityState::Available, &everyone), Ok(()));
    }
    assert_eq!(e.update_state(&owner, 1, &commodity("d", 100), CommodityState::Available, &everyone), Ok(()));
    assert_eq!(e.update_state(&owner, 1, &commodity("c", 1000), CommodityState::Required, &everyone), Ok(()));

    assert_eq!(e.amount_available_of("c", &everyone), 23);
    assert_eq!(e.amount_available_of("c", &vec![1, 3]), 16);
    assert_eq!(e.amount_available_of("c", &vec![2]), 7);
    assert_eq!(e.amount_available_of("c", &vec![]), 0);
    assert_eq!(e.amount_available_of("c", &vec![4, 5]), 0);
    assert_eq!(e.amount_available_of("d", &everyone), 100);
    assert_eq!(e.amount_available_of("e", &everyone), 0);
    assert_eq!(e.amount_required_of("c", &everyone), 1000);
    assert_eq!(e.amount_in_transit_of("c", &everyone), 0);
    assert_eq!(e.entities_that_have("c", &everyone), vec![1, 2, 3]);
    assert_eq!(e.entities_that_have("c", &vec![3, 1]), vec![1, 3]);

    assert_eq!(e.update_state(&owner, 2, &commodity("c", 1), CommodityState::Available, &everyone), Ok(()));
    assert_eq!(e.amount_available_of("c", &everyone), 17);
    assert_eq!(e.entities_that_have("c", &everyone), vec![1, 2, 3]);
}

#[test]
fn dead_entries_are_dropped_when_their_commodity_is_written() {
    let mut e = CommodityExchange::new();
    let owner = structure("s", 1, 1, None);
    let everyone = vec![1, 2, 3];
    for id in [1u128, 2, 3] {
        assert_eq!(e.update_state(&owner, id, &commodity("c", 5), CommodityState::Available, &everyone), Ok(()));
        assert_eq!(e.update_state(&owner, id, &commodity("d", 5), CommodityState::Available, &everyone), Ok(()));
    }
    assert_eq!(e.amount_available_of("c", &vec![1, 3]), 10);
    assert_eq!(e.amount_available_of("c", &everyone), 15);
    assert_eq!(e.update_state(&owner, 1, &commodity("c", 5), CommodityState::Available, &vec![1, 3]), Ok(()));
    assert_eq!(e.amount_available_of("c", &everyone), 10);
    assert_eq!(e.amount_available_of("d", &everyone), 15);
    assert_eq!(e.update_state(&owner, 9, &commodity("d", 1), CommodityState::Available, &vec![]), Ok(()));
    assert_eq!(e.amount_available_of("d", &vec![1, 2, 3, 9]), 1);
    assert_eq!(e.entities_that_have("d", &vec![1, 2, 3, 9]), vec![9]);
    assert_eq!(e.amount_available_of("c", &everyone), 10);
}

#[test]
fn dead_registration_gives_way_to_a_new_one() {
    let mut e = CommodityExchange::new();
    let owner = structure("s", 1, 1, None);
    let source = resource("r", 1, None, 1, None);
    assert_eq!(e.add_producer(&owner, 1, "c", &vec![1, 2]), Ok(()));
    assert_eq!(e.add_producer(&source, 2, "c", &vec![1, 2]), Ok(()));
    assert_eq!(e.add_producer(&owner, 1, "c", &vec![1, 2]), Err(ExchangeError::ProducerExists));
    assert_eq!(e.producers_of("c", &vec![1, 2]), vec![1, 2]);
    assert_eq!(e.add_producer(&owner, 1, "c", &vec![2]), Ok(()));
    assert_eq!(e.producers_of("c", &vec![1, 2]), vec![2, 1]);
    assert_eq!(e.add_producer(&owner, 3, "c", &vec![3]), Ok(()));
    assert_eq!(e.producers_of("c", &vec![1, 2, 3]), vec![3]);
    assert_eq!(e.add_producer(&owner, 3, "d", &vec![3]), Ok(()));
    assert_eq!(e.producers_of("d", &vec![3]), vec![3]);
    assert_eq!(e.consumers_of("c", &vec![1, 2, 3]), vec![]);
    assert_eq!(e.add_consumer(&source, 2, "c", &vec![2]), Err(ExchangeError::UnexpectedEntity));
    assert_eq!(e.add_consumer(&owner, 2, "c", &vec![2]), Ok(()));
    assert_eq!(e.add_consumer(&owner, 2, "c", &vec![2]), Err(ExchangeError::ConsumerExists));
    assert_eq!(e.consumers_of("c", &vec![2]), vec![2]);
    assert_eq!(e.producers_of("c", &vec![1, 2, 3]), vec![3]);
}

#[test]
fn totals_add_up_and_stop_at_the_largest_amount() {
    let mut e = CommodityExchange::new();
    let owner = walker("w");
    let live = vec![1];
    assert_eq!(e.update_state(&owner, 1, &commodity("c", 4), CommodityState::Used, &live), Ok(()));
    assert_eq!(e.update_state(&owner, 1, &commodity("c", 6), CommodityState::Used, &live), Ok(()));
    assert_eq!(e.update_state(&owner, 2, &commodity("c", 1), CommodityState::Lost, &live), Ok(()));
    assert_eq!(e.update_state(&owner, 2, &commodity("d", 9), CommodityState::Lost, &live), Ok(()));
    assert_eq!(e.amount_used_of("c"), 10);
    assert_eq!(e.amount_lost_of("c"), 1);
    assert_eq!(e.amount_lost_of("d"), 9);
    assert_eq!(e.amount_used_of("d"), 0);
    assert_eq!(e.amount_available_of("c", &live), 0);
}

#[test]
fn reports_of_entities_that_cannot_report_are_refused() {
    let mut e = CommodityExchange::new();
    let live = vec![1];
    for state in [
        CommodityState::Required,
        CommodityState::Available,
        CommodityState::InTransit,
        CommodityState::Used,
        CommodityState::Lost,
    ] {
        assert_eq!(e.update_state(&Entity::Road, 1, &commodity("c", 4), state, &live), Err(
            ExchangeError::UnexpectedEntity
        ));
        assert_eq!(e.update_state(&Entity::Roadblock, 1, &commodity("c", 4), state, &live), Err(
            ExchangeError::UnexpectedEntity
        ));
        assert_eq!(e.update_state(&doodad("d"), 1, &commodity("c", 4), state, &live), Err(
            ExchangeError::UnexpectedEntity
        ));
    }
    assert_eq!(e.amount_required_of("c", &live), 0);
    assert_eq!(e.amount_available_of("c", &live), 0);
    assert_eq!(e.amount_in_transit_of("c", &live), 0);
    assert_eq!(e.amount_used_of("c"), 0);
    assert_eq!(e.amount_lost_of("c"), 0);

    let updates = vec![
        (commodity("c", 4), CommodityState::Available),
        (commodity("c", 2), CommodityState::Used),
        (commodity("d", 1), CommodityState::Required),
    ];
    assert_eq!(e.update_states(&Entity::Road, 1, &updates, &live), vec![ExchangeError::UnexpectedEntity; 3]);
    assert_eq!(e.amount_available_of("c", &live), 0);
    assert_eq!(e.update_states(&resource("r", 1, None, 1, None), 1, &updates, &live), vec![]);
    assert_eq!(e.amount_available_of("c", &live), 4);
    assert_eq!(e.amount_used_of("c"), 2);
    assert_eq!(e.amount_required_of("d", &live), 1);
    assert_eq!(
        CursorError::ForExchange { errors: vec![ExchangeError::UnexpectedEntity] },
        CursorError::ForExchange { errors: vec![ExchangeError::UnexpectedEntity] }
    );
    assert_ne!(CursorError::ForGrid { e: GridError::CellUnavailable }, CursorError::ForGrid {
        e: GridError::EntityMissing
    });
}

#[test]
fn path_to_the_start_is_the_start_alone() {
    let mut g = Grid::new(3);
    for y in 0..3 {
        for x in 0..3 {
            assert_eq!(g.path_between((x, y), (x, y)), Some((vec![(x, y)], 0)));
        }
    }
    assert!(g.add_entity((1, 1), doodad("d")).is_ok());
    assert_eq!(g.path_between((1, 1), (1, 1)), Some((vec![(1, 1)], 0)));
}

#[test]
fn path_to_a_cell_round_the_start_takes_one_step() {
    let g = Grid::new(3);
    for end in [(0, 0), (1, 0), (2, 0), (0, 1), (2, 1), (0, 2), (1, 2), (2, 2)] {
        assert_eq!(g.path_between((1, 1), end), Some((vec![(1, 1), end], 1)));
        assert_eq!(g.path_between(end, (1, 1)), Some((vec![end, (1, 1)], 1)));
    }
}

#[test]
fn path_is_a_shortest_walk_or_nothing() {
    let mut g = Grid::new(4);
    for at in [(1, 0), (1, 1), (1, 2)] {
        assert!(g.add_entity(at, doodad("d")).is_ok());
    }
    let (path, cost) = g.path_between((0, 0), (2, 0)).unwrap();
    assert_eq!(cost, 6);
    assert_eq!(path.len(), 7);
    assert_eq!(path[0], (0, 0));
    assert_eq!(path[6], (2, 0));
    for step in path.windows(2) {
        assert!(step[0] != step[1]);
        assert!(step[0].0.abs_diff(step[1].0) <= 1 && step[0].1.abs_diff(step[1].1) <= 1);
        assert!(g.is_cell_passable(step[1]));
    }
    assert_eq!(g.path_between((0, 0), (1, 1)), None);
    assert_eq!(g.path_between((1, 1), (0, 0)).map(|p| p.1), Some(1));
    assert!(g.add_entity((1, 3), doodad("d")).is_ok());
    assert_eq!(g.path_between((0, 0), (2, 0)), None);
    assert_eq!(g.path_between((0, 0), (0, 3)).map(|p| p.1), Some(3));
    assert_eq!(g.path_between((0, 0), (4, 0)), None);
    assert_eq!(g.path_between((0, 4), (0, 0)), None);
    assert_eq!(g.path_between((9, 9), (9, 9)), None);
    assert!(g.add_entity((0, 1), Entity::Road).is_ok());
    assert!(g.add_entity((0, 2), walker("w")).is_ok());
    assert_eq!(g.path_between((0, 0), (0, 3)), Some((vec![(0, 0), (0, 1), (0, 2), (0, 3)], 3)));
}

#[test]
fn neighbours_are_laid_out_round_the_cell() {
    assert_eq!(Grid::neighbours_of(&(1, 1), true), vec![
        Some((0, 2)),
        Some((1, 2)),
        Some((2, 2)),
        Some((0, 1)),
        Some((2, 1)),
        Some((0, 0)),
        Some((1, 0)),
        Some((2, 0)),
    ]);
    assert_eq!(Grid::neighbours_of(&(1, 1), false), vec![
        None,
        Some((1, 2)),
        None,
        Some((0, 1)),
        Some((2, 1)),
        None,
        Some((1, 0)),
        None,
    ]);
    assert_eq!(Grid::neighbours_of(&(0, 0), true), vec![
        None,
        Some((0, 1)),
        Some((1, 1)),
        None,
        Some((1, 0)),
        None,
        None,
        None,
    ]);
    assert_eq!(Grid::neighbours_of(&(0, 5), true), vec![
        None,
        Some((0, 6)),
        Some((1, 6)),
        None,
        Some((1, 5)),
        None,
        Some((0, 4)),
        Some((1, 4)),
    ]);
    assert_eq!(Grid::neighbours_of(&(usize::MAX, usize::MAX), true), vec![
        None,
        None,
        None,
        Some((usize::MAX - 1, usize::MAX)),
        None,
        Some((usize::MAX - 1, usize::MAX - 1)),
        Some((usize::MAX, usize::MAX - 1)),
        None,
    ]);
    let g = Grid::new(3);
    assert_eq!(g.passable_neighbours_of(&(2, 2)), vec![(1, 2), (1, 1), (2, 1)]);
    assert_eq!(g.steps_from(&(0, 0)), vec![((0, 1), 1), ((1, 1), 1), ((1, 0), 1)]);
    assert_eq!(g.passable_neighbours_of(&(3, 3)), vec![(2, 2)]);
    assert_eq!(g.passable_neighbours_of(&(5, 5)), vec![]);
    assert!(g.is_cell_in_grid((2, 2)));
    assert!(!g.is_cell_in_grid((3, 2)));
    assert!(!g.is_cell_in_grid((2, 3)));
    assert!(g.is_cell_passable((2, 2)));
    assert!(!g.is_cell_passable((3, 2)));
}

#[test]
fn named_entities_are_found_at_their_last_cell() {
    let mut g = Grid::new(4);
    assert!(g.add_entity((0, 0), structure("s", 2, 3, None)).is_ok());
    assert!(g.add_entity((3, 3), structure("s", 1, 1, None)).is_ok());
    assert!(g.add_entity((2, 0), doodad("s")).is_ok());
    assert!(g.add_entity((3, 0), walker("s")).is_ok());
    assert!(g.add_entity((3, 0), walker("s")).is_ok());
    assert!(g.add_entity((3, 1), Entity::Road).is_ok());
    assert_eq!(g.find_named_entities(EntityType::Structure, "s".to_owned()), vec![(1, 2), (3, 3)]);
    assert_eq!(g.find_named_entities(EntityType::Doodad, "s".to_owned()), vec![(2, 0)]);
    assert_eq!(g.find_named_entities(EntityType::Walker, "s".to_owned()), vec![(3, 0), (3, 0)]);
    assert_eq!(g.find_named_entities(EntityType::Resource, "s".to_owned()), vec![]);
    assert_eq!(g.find_named_entities(EntityType::Road, "s".to_owned()), vec![]);
    assert_eq!(g.find_named_entities(EntityType::Roadblock, "".to_owned()), vec![]);
    assert_eq!(g.find_named_entities(EntityType::Structure, "S".to_owned()), vec![]);
}

#[test]
fn closest_entity_is_the_first_in_a_scan_among_the_nearest() {
    let mut g = Grid::new(5);
    for at in [(3, 2), (2, 3), (2, 1), (1, 2), (4, 4)] {
        assert!(g.add_entity(at, doodad("d")).is_ok());
    }
    assert_eq!(g.find_closest_named_entity(EntityType::Doodad, "d".to_owned(), &(2, 2)), Some(((1, 2), 1)));
    assert!(g.add_entity((1, 1), doodad("e")).is_ok());
    assert!(g.add_entity((3, 3), doodad("e")).is_ok());
    assert!(g.add_entity((3, 1), doodad("e")).is_ok());
    assert!(g.add_entity((1, 3), doodad("e")).is_ok());
    assert_eq!(g.find_closest_named_entity(EntityType::Doodad, "e".to_owned(), &(2, 2)), Some(((1, 1), 2)));
    assert_eq!(g.find_closest_named_entity(EntityType::Doodad, "d".to_owned(), &(4, 3)), Some(((4, 4), 1)));
    assert_eq!(g.find_closest_named_entity(EntityType::Doodad, "d".to_owned(), &(9, 2)), Some(((4, 4), 29)));
    assert_eq!(g.find_closest_named_entity(EntityType::Doodad, "d".to_owned(), &(9, 0)), Some(((3, 2), 40)));
    assert_eq!(g.find_closest_named_entity(EntityType::Doodad, "f".to_owned(), &(2, 2)), None);
    assert_eq!(
        g.find_closest_named_entity(EntityType::Doodad, "d".to_owned(), &(usize::MAX, usize::MAX))
            .map(|r| r.0),
        Some((4, 4))
    );
}

#[test]
fn squared_distance_is_exact_up_to_the_largest_amount() {
    assert_eq!(squared_distance_between(&(0, 0), &(0, 0)), 0);
    assert_eq!(squared_distance_between(&(0, 0), &(3, 4)), 25);
    assert_eq!(squared_distance_between(&(3, 4), &(0, 0)), 25);
    assert_eq!(squared_distance_between(&(7, 1), &(4, 5)), 25);
    assert_eq!(squared_distance_between(&(1, 3), &(3, 4)), 5);
    let far = usize::MAX as u128;
    assert_eq!(squared_distance_between(&(0, 0), &(usize::MAX, 0)), far * far);
    assert_eq!(squared_distance_between(&(0, 3), &(usize::MAX, 0)), far * far + 9);
    if usize::BITS == 64 {
        assert_eq!(squared_distance_between(&(0, 0), &(usize::MAX, usize::MAX)), u128::MAX);
    }
}

#[test]
fn entities_tell_their_kind() {
    let all = [
        (Entity::Road, EntityType::Road, false, None),
        (Entity::Roadblock, EntityType::Roadblock, false, None),
        (doodad("d"), EntityType::Doodad, true, Some("d")),
        (resource("r", 1, None, 1, None), EntityType::Resource, true, Some("r")),
        (structure("s", 2, 3, None), EntityType::Structure, true, Some("s")),
        (walker("w"), EntityType::Walker, false, Some("w")),
    ];
    for (entity, kind, blocking, name) in all.iter() {
        assert_eq!(entity.entity_type(), *kind);
        assert_eq!(entity.is_blocking(), *blocking);
        for other in [
            EntityType::Road,
            EntityType::Roadblock,
            EntityType::Doodad,
            EntityType::Resource,
            EntityType::Structure,
            EntityType::Walker,
        ] {
            let named = name.map(|n| n.to_owned()).unwrap_or_default();
            assert_eq!(entity.has_name(other, &named), other == *kind && name.is_some());
            assert!(!entity.has_name(other, &"x".to_owned()));
        }
        let expected = if *kind == EntityType::Structure {
            Size { width: 2, height: 3 }
        } else {
            Size { width: 1, height: 1 }
        };
        assert_eq!(entity.footprint(), expected);
    }
}

#[test]
fn grid_entity_keeps_its_place_when_its_value_changes() {
    let mut e = GridEntity { id: 3, entity: doodad("d"), parent: (2, 5), size: Size { width: 2, height: 1 } };
    assert!(e.occupies((2, 5)));
    assert!(e.occupies((3, 5)));
    assert!(!e.occupies((4, 5)));
    assert!(!e.occupies((1, 5)));
    assert!(!e.occupies((2, 4)));
    assert!(!e.occupies((2, 6)));
    e.replace_entity(walker("w"));
    assert_eq!(name_of(Some(&e.entity)), Some("w".to_owned()));
    assert_eq!((e.id, e.parent, e.size), (3, (2, 5), Size { width: 2, height: 1 }));
    let cell = Cell::empty();
    assert_eq!(cell.desirability, 0);
    assert_eq!(cell.active_effects.len(), 0);
    assert_ne!(TraversalType::RoadOnly, TraversalType::RoadOrEmpty);
    assert_ne!(TraversalType::EmptyOnly, TraversalType::RoadOrEmpty);
}
