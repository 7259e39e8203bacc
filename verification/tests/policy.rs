use pinboard_machine::ints::{Word11, Word12};
use pinboard_machine::pinboards::{Instruction, Ones, Opcode, Tens};
use pinboard_machine::policy::{
    redraw, Alteration, DirectPolicy, Policy, TablePolicy, Target, PAIRS,
};

fn acc(n: i64) -> Word12 {
    Word12::new(n).unwrap()
}

#[test]
fn direct_policy_reads_pinboard_and_position() {
    let policy = DirectPolicy;
    assert_eq!(policy.locate(1, 0), Some(Target { pinboard: 1, position: 0 }));
    assert_eq!(policy.locate(8, 15), Some(Target { pinboard: 8, position: 15 }));
    assert_eq!(policy.locate(3, 200), Some(Target { pinboard: 3, position: 200 }));
    assert_eq!(policy.locate(0, 0), None);
    assert_eq!(policy.locate(9, 0), None);
    assert_eq!(policy.locate(255, 3), None);
}

#[test]
fn direct_policy_transfers_on_a_negative_accumulator() {
    let policy = DirectPolicy;
    let secondary = Word11::zero();
    assert!(policy.decide(acc(-1), secondary));
    assert!(policy.decide(acc(-999_999_999_999), secondary));
    assert!(!policy.decide(acc(0), secondary));
    assert!(!policy.decide(acc(1), secondary));
    assert!(!policy.decide(acc(0), Word11::new(-5).unwrap()));
}

#[test]
fn direct_policy_alters_the_digits_from_the_accumulator() {
    let policy = DirectPolicy;
    let stored = Instruction(Opcode::Add, Some(Tens::E), None);
    assert_eq!(
        policy.alter(Some(stored), acc(1234)),
        Some(Instruction(Opcode::Add, Some(Tens::Num(3)), Some(Ones::Num(4))))
    );
    assert_eq!(
        policy.alter(Some(stored), acc(-987_654_321_098)),
        Some(Instruction(Opcode::Add, Some(Tens::Num(9)), Some(Ones::Num(8))))
    );
    assert_eq!(
        policy.alter(Some(stored), acc(7)),
        Some(Instruction(Opcode::Add, Some(Tens::Num(0)), Some(Ones::Num(7))))
    );
    assert_eq!(policy.alter(None, acc(1234)), None);
}

#[test]
fn redraw_takes_the_two_lowest_digits() {
    let stored = Instruction(Opcode::W, None, Some(Ones::V));
    assert_eq!(
        redraw(Some(stored), acc(999_999_999_999)),
        Some(Instruction(Opcode::W, Some(Tens::Num(9)), Some(Ones::Num(9))))
    );
    assert_eq!(
        redraw(Some(stored), acc(-120)),
        Some(Instruction(Opcode::W, Some(Tens::Num(2)), Some(Ones::Num(0))))
    );
    assert_eq!(
        redraw(Some(stored), acc(0)),
        Some(Instruction(Opcode::W, Some(Tens::Num(0)), Some(Ones::Num(0))))
    );
    assert_eq!(redraw(None, acc(55)), None);
}

#[test]
fn a_new_table_names_no_place() {
    let policy = TablePolicy::new(true, false, true, Alteration::Digits);
    assert_eq!(PAIRS, 160);
    for tens in 0..=255u8 {
        for ones in 0..=255u8 {
            assert_eq!(policy.locate(tens, ones), None);
        }
    }
    assert!(policy.below_zero);
    assert!(!policy.at_zero);
    assert!(policy.above_zero);
    assert_eq!(policy.alteration, Alteration::Digits);
}

#[test]
fn a_table_names_what_it_was_given() {
    let mut policy = TablePolicy::new(false, false, false, Alteration::Digits);
    let place = Target { pinboard: 7, position: 3 };
    assert!(policy.name(9, 15, Some(place)));
    assert!(policy.name(0, 0, Some(Target { pinboard: 1, position: 1 })));
    assert!(!policy.name(10, 0, Some(place)));
    assert!(!policy.name(0, 16, Some(place)));
    for tens in 0..=20u8 {
        for ones in 0..=20u8 {
            let expected: Option<Target> = if (tens, ones) == (9, 15) {
                Some(place)
            } else if (tens, ones) == (0, 0) {
                Some(Target { pinboard: 1, position: 1 })
            } else {
                None
            };
            assert_eq!(policy.locate(tens, ones), expected);
        }
    }
    assert_eq!(policy.targets[159], Some(place));
    assert_eq!(policy.targets[0], Some(Target { pinboard: 1, position: 1 }));
    assert!(policy.name(3, 4, Some(place)));
    assert_eq!(policy.targets[52], Some(place));
    assert!(policy.name(9, 15, None));
    assert_eq!(policy.locate(9, 15), None);
}

#[test]
fn a_table_transfers_on_the_chosen_signs() {
    let secondary = Word11::zero();
    for below in [false, true] {
        for at in [false, true] {
            for above in [false, true] {
                let policy = TablePolicy::new(below, at, above, Alteration::Digits);
                assert_eq!(policy.decide(acc(-5), secondary), below);
                assert_eq!(policy.decide(acc(0), secondary), at);
                assert_eq!(policy.decide(acc(5), secondary), above);
            }
        }
    }
}

#[test]
fn a_table_alters_as_chosen() {
    let stored = Instruction(Opcode::R, Some(Tens::X), Some(Ones::Y));
    let literal = Instruction(Opcode::P, None, None);
    let digits = TablePolicy::new(true, false, false, Alteration::Digits);
    assert_eq!(
        digits.alter(Some(stored), acc(-42)),
        Some(Instruction(Opcode::R, Some(Tens::Num(4)), Some(Ones::Num(2))))
    );
    assert_eq!(digits.alter(None, acc(-42)), None);
    let wiring = TablePolicy::new(true, false, false, Alteration::Literal(Some(literal)));
    assert_eq!(wiring.alter(Some(stored), acc(-42)), Some(literal));
    assert_eq!(wiring.alter(None, acc(-42)), Some(literal));
    let unwiring = TablePolicy::new(true, false, false, Alteration::Literal(None));
    assert_eq!(unwiring.alter(Some(stored), acc(-42)), None);
}

#[test]
fn a_table_can_say_what_the_direct_policy_says() {
    let mut table = TablePolicy::new(true, false, false, Alteration::Digits);
    for tens in 1..=8u8 {
        for ones in 0..=15u8 {
            table.name(tens, ones, Some(Target { pinboard: tens, position: ones }));
        }
    }
    let stored = Instruction(Opcode::Mul, Some(Tens::E), Some(Ones::F));
    for tens in 0..=9u8 {
        for ones in 0..=15u8 {
            assert_eq!(table.locate(tens, ones), DirectPolicy.locate(tens, ones));
        }
    }
    for value in [-999_999_999_999i64, -10, -1, 0, 1, 10, 76, 999_999_999_999] {
        assert_eq!(
            table.decide(acc(value), Word11::zero()),
            DirectPolicy.decide(acc(value), Word11::zero())
        );
        assert_eq!(
            table.alter(Some(stored), acc(value)),
            DirectPolicy.alter(Some(stored), acc(value))
        );
    }
}
