use wavedrom::cycle_offset::{CycleOffset, InCycleOffset};
use wavedrom::path::PathState::{Box2, Continue, NegedgeClockMarked, PosedgeClockMarked};
use wavedrom::path::{PathState, WaveOptions, WavePath};

fn cycle_length(states: Vec<PathState>, period: u16, phase: CycleOffset) -> u32 {
    let options = WaveOptions::default();
    let data: Vec<String> = Vec::new();
    let path = WavePath::new(states, period, phase, &data);
    let mut iter = path.iter(&options);
    let mut last = None;
    while let Some(item) = iter.next() {
        last = Some(item);
    }
    last.map_or(0, |i| i.end_cycle.cycle_width())
}

#[test]
fn calculate_cycle_length() {
    let zero = || CycleOffset::new(0, InCycleOffset::Begin);
    assert_eq!(cycle_length(vec![], 1, zero()), 0);
    assert_eq!(cycle_length(vec![], 2, zero()), 0);
    assert_eq!(cycle_length(vec![Box2], 1, zero()), 1);
    assert_eq!(cycle_length(vec![Box2], 2, zero()), 1);
    assert_eq!(cycle_length(vec![PosedgeClockMarked], 1, zero()), 1);
    assert_eq!(cycle_length(vec![PosedgeClockMarked], 2, zero()), 2);
    assert_eq!(cycle_length(vec![Box2, PosedgeClockMarked], 3, zero()), 4);
    assert_eq!(cycle_length(vec![PosedgeClockMarked, NegedgeClockMarked], 3, zero()), 6);
    assert_eq!(
        cycle_length(vec![PosedgeClockMarked, Continue, NegedgeClockMarked], 3, zero()),
        9
    );
}
