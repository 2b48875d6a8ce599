use abi_lowering::types::{FieldDef, LookupTable, Mode, Ty};
use abi_lowering::aligned;

fn int_field(name: &str) -> FieldDef {
    FieldDef { name: name.to_string(), ty: Ty::Int }
}

fn player_table() -> (LookupTable, usize, usize) {
    let mut t = LookupTable::new(8);
    let point = t
        .add_aggregate("Point".to_string(), vec![int_field("x"), int_field("y")])
        .unwrap();
    let player = t
        .add_aggregate(
            "Player".to_string(),
            vec![
                int_field("id"),
                FieldDef { name: "position".to_string(), ty: Ty::Struct(point) },
            ],
        )
        .unwrap();
    (t, point, player)
}

#[test]
fn packed_sizes_are_field_sums() {
    let (t, point, player) = player_table();
    assert_eq!(t.size_of(Ty::Int), 4);
    assert_eq!(t.size_of(Ty::Unit), 0);
    assert_eq!(t.size_of(Ty::Struct(point)), 8);
    assert_eq!(t.size_of(Ty::Struct(player)), 12);
    // No-padding policy: the aggregate's size is the sum of its fields'.
    assert_eq!(
        t.size_of(Ty::Struct(player)),
        t.size_of(Ty::Int) + t.size_of(Ty::Struct(point))
    );
}

#[test]
fn packed_offsets_are_strictly_monotone() {
    let (t, point, player) = player_table();
    assert_eq!(t.offset_of(point, 0), 0);
    assert_eq!(t.offset_of(point, 1), 4);
    assert_eq!(t.offset_of(player, 0), 0);
    assert_eq!(t.offset_of(player, 1), 4);
    assert!(t.offset_of(player, 0) < t.offset_of(player, 1));
    // The last field ends exactly at the aggregate's size.
    assert_eq!(
        t.offset_of(player, 1) + t.size_of(Ty::Struct(point)),
        t.size_of(Ty::Struct(player))
    );
}

#[test]
fn passing_mode_uses_flattened_scalar_count() {
    let (t, point, player) = player_table();
    // Two flattened scalars: within the limit, so by scalars.
    assert_eq!(t.passing_mode(point), Mode::ByScalars);
    // Three flattened scalars (id, position.x, position.y): by pointer.
    assert_eq!(t.passing_mode(player), Mode::ByPointer);
    // The unit aggregate has zero scalars: trivially by scalars.
    assert_eq!(t.passing_mode(0), Mode::ByScalars);
}

#[test]
fn passing_mode_is_deterministic() {
    let (t, _point, player) = player_table();
    let first = t.passing_mode(player);
    for _ in 0..8 {
        assert_eq!(t.passing_mode(player), first);
    }
}

#[test]
fn flattening_recurses_through_nested_aggregates() {
    let (t, point, player) = player_table();
    assert_eq!(t.flat_widths_of(Ty::Struct(point)), vec![4, 4]);
    assert_eq!(t.flat_widths_of(Ty::Struct(player)), vec![4, 4, 4]);
    assert_eq!(t.flat_widths_of(Ty::Unit), Vec::<u32>::new());
}

#[test]
fn field_lookup_is_by_name() {
    let (t, point, player) = player_table();
    assert_eq!(t.resolve_field(point, &"x".to_string()), Some(0));
    assert_eq!(t.resolve_field(point, &"y".to_string()), Some(1));
    assert_eq!(t.resolve_field(player, &"position".to_string()), Some(1));
    assert_eq!(t.resolve_field(player, &"x".to_string()), None);
    assert_eq!(t.resolve_aggregate(&"Point".to_string()), Some(point));
    assert_eq!(t.resolve_aggregate(&"Missing".to_string()), None);
}

#[test]
fn rejected_definitions_leave_the_table_unchanged() {
    let (mut t, point, _player) = player_table();
    let before = t.aggregate_count();
    // Duplicate field names are rejected.
    assert!(t
        .add_aggregate("Bad".to_string(), vec![int_field("a"), int_field("a")])
        .is_none());
    // A field may only reference an already-declared aggregate.
    assert!(t
        .add_aggregate(
            "Worse".to_string(),
            vec![FieldDef { name: "f".to_string(), ty: Ty::Struct(99) }],
        )
        .is_none());
    assert_eq!(t.aggregate_count(), before);
    // Functions over undeclared aggregates are rejected too.
    assert!(t.add_function("f".to_string(), vec![Ty::Struct(99)], Ty::Int).is_none());
    assert!(t.add_function("g".to_string(), vec![Ty::Struct(point)], Ty::Int).is_some());
}

#[test]
fn the_sample_table_has_the_expected_layout() {
    let t = LookupTable::hardcoded(8);
    let point = t.resolve_aggregate(&"Point".to_string()).unwrap();
    let player = t.resolve_aggregate(&"Player".to_string()).unwrap();
    assert_eq!((point, player), (1, 2));
    assert_eq!(t.resolve_field(point, &"x".to_string()), Some(0));
    assert_eq!(t.resolve_field(player, &"position".to_string()), Some(1));
    assert_eq!(t.size_of(Ty::Struct(point)), 8);
    assert_eq!(t.size_of(Ty::Struct(player)), 12);
    assert_eq!(t.passing_mode(point), Mode::ByScalars);
    assert_eq!(t.passing_mode(player), Mode::ByPointer);
    assert_eq!(t.aggregate_count(), 3);
}

#[test]
fn oversized_aggregates_are_rejected() {
    // Nesting a two-field aggregate in itself doubles the size each level;
    // past the offset range the definition is refused and the table keeps
    // its previous state.
    let mut t = LookupTable::new(8);
    let mut inner = t
        .add_aggregate("level0".to_string(), vec![int_field("a"), int_field("b")])
        .unwrap();
    let mut size: u64 = 8;
    let mut level = 1;
    loop {
        let next = t.add_aggregate(
            format!("level{level}"),
            vec![
                FieldDef { name: "a".to_string(), ty: Ty::Struct(inner) },
                FieldDef { name: "b".to_string(), ty: Ty::Struct(inner) },
            ],
        );
        size *= 2;
        if size > 0x7fff_ffff {
            assert!(next.is_none());
            break;
        }
        let id = next.unwrap();
        assert_eq!(t.size_of(Ty::Struct(id)) as u64, size);
        inner = id;
        level += 1;
    }
}

#[test]
fn aligned_layout_pads_fields_and_the_aggregate() {
    // One I32, one I8, one I32, one I16: the I8 is followed by padding so
    // the next I32 sits at a multiple of four, and the aggregate is padded
    // to its largest field's alignment.
    let fields: Vec<u32> = vec![4, 1, 4, 2];
    assert_eq!(aligned::offset_of_field(0, &fields), 0);
    assert_eq!(aligned::offset_of_field(1, &fields), 4);
    assert_eq!(aligned::offset_of_field(2, &fields), 8);
    assert_eq!(aligned::offset_of_field(3, &fields), 12);
    assert_eq!(aligned::alignment_of_struct(&fields), 4);
    assert_eq!(aligned::size_of_struct(&fields), 16);
    // Every offset is a multiple of its field's own alignment.
    for (i, w) in fields.iter().enumerate() {
        assert_eq!(aligned::offset_of_field(i, &fields) % w, 0);
    }
    // The size is a multiple of the aggregate's alignment.
    assert_eq!(aligned::size_of_struct(&fields) % aligned::alignment_of_struct(&fields), 0);
}

#[test]
fn aligned_layout_of_uniform_fields_has_no_padding() {
    let fields: Vec<u32> = vec![4, 4];
    assert_eq!(aligned::size_of_struct(&fields), 8);
    assert_eq!(aligned::offset_of_field(1, &fields), 4);
    assert_eq!(aligned::alignment_of_scalar_type(8), 8);
    assert_eq!(aligned::align_up(5, 4), 8);
    assert_eq!(aligned::align_up(8, 4), 8);
    assert_eq!(aligned::size_of_struct(&Vec::new()), 0);
}
