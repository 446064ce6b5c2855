use callstack::sector_map::{
    copy_numbers, BitField, DeadlineSectorMap, PartitionSectorMap, SectorMapError,
    UnvalidatedBitField, WPOST_PERIOD_DEADLINES,
};

fn raw(numbers: &[u64]) -> UnvalidatedBitField {
    UnvalidatedBitField::Unvalidated(numbers.to_vec())
}

#[test]
fn bitfield_orders_and_merges_its_values() {
    let field = BitField::from_values(&[5, 1, 9, 5, 1, 0]);
    assert_eq!(field.to_vec(), vec![0, 1, 5, 9]);
    assert_eq!(field.len(), 4);
    assert_eq!(BitField::from_values(&[]).len(), 0);
    assert_eq!(BitField::new().to_vec(), Vec::<u64>::new());
}

#[test]
fn bitfield_set_keeps_the_order() {
    let mut field = BitField::new();
    field.set(7);
    field.set(3);
    field.set(7);
    field.set(u64::MAX);
    field.set(0);
    assert_eq!(field.to_vec(), vec![0, 3, 7, u64::MAX]);
}

#[test]
fn bitfield_union_holds_both() {
    let a = BitField::from_values(&[1, 3, 5]);
    let b = BitField::from_values(&[2, 3, 8]);
    assert_eq!(a.union(&b).to_vec(), vec![1, 2, 3, 5, 8]);
    assert_eq!(a.union(&BitField::new()).to_vec(), vec![1, 3, 5]);
    assert_eq!(BitField::new().union(&b).to_vec(), vec![2, 3, 8]);
}

#[test]
fn validation_wants_increasing_numbers() {
    assert_eq!(raw(&[1, 2, 9]).validate().unwrap().to_vec(), vec![1, 2, 9]);
    assert_eq!(raw(&[]).validate().unwrap().len(), 0);
    assert_eq!(raw(&[4]).validate().unwrap().to_vec(), vec![4]);
    assert_eq!(raw(&[1, 1]).validate().err(), Some(SectorMapError::InvalidBitField));
    assert_eq!(raw(&[2, 1]).validate().err(), Some(SectorMapError::InvalidBitField));
    let checked = UnvalidatedBitField::Validated(BitField::from_values(&[3, 2]));
    assert_eq!(checked.validate().unwrap().to_vec(), vec![2, 3]);
}

#[test]
fn copied_numbers_are_the_same() {
    assert_eq!(copy_numbers(&[3, 1, 2]), vec![3, 1, 2]);
}

#[test]
fn partition_map_starts_empty() {
    let mut map = PartitionSectorMap::new();
    assert!(map.is_empty());
    assert_eq!(map.len(), 0);
    assert_eq!(map.count(), Ok((0, 0)));
    assert_eq!(map.partitions(), Vec::<u64>::new());
    assert_eq!(map.sectors_at(0), None);
}

#[test]
fn partition_map_merges_sectors_of_one_partition() {
    let mut map = PartitionSectorMap::new();
    assert_eq!(map.add_values(4, vec![9, 2, 2]), Ok(()));
    assert_eq!(map.add_values(1, vec![7]), Ok(()));
    assert_eq!(map.add(4, raw(&[1, 2, 10])), Ok(()));
    assert!(!map.is_empty());
    assert_eq!(map.len(), 2);
    assert_eq!(map.partitions(), vec![1, 4]);
    assert_eq!(map.sectors_at(4), Some(vec![1, 2, 9, 10]));
    assert_eq!(map.sectors_at(1), Some(vec![7]));
    assert_eq!(map.count(), Ok((2, 5)));
    assert_eq!(map.tally(), Ok((2, 5)));
    assert_eq!(map.iter(), vec![(1, vec![7]), (4, vec![1, 2, 9, 10])]);
}

#[test]
fn partition_map_refuses_to_merge_what_is_not_in_order() {
    let mut map = PartitionSectorMap::new();
    assert_eq!(map.add(4, raw(&[1, 2])), Ok(()));
    assert_eq!(map.add(4, raw(&[3, 3])), Err(SectorMapError::InvalidBitField));
    assert_eq!(map.sectors_at(4), Some(vec![1, 2]));
    assert_eq!(map.add(5, raw(&[3, 3])), Ok(()));
    assert_eq!(map.add(5, raw(&[1])), Err(SectorMapError::InvalidBitField));
    assert_eq!(map.sectors_at(5), Some(vec![3, 3]));
    assert_eq!(map.count(), Err(SectorMapError::InvalidBitField));
    assert_eq!(map.len(), 2);
}

#[test]
fn deadline_map_refuses_a_deadline_out_of_range() {
    let mut map = DeadlineSectorMap::new();
    assert_eq!(
        map.add_values(WPOST_PERIOD_DEADLINES, 0, &[1]),
        Err(SectorMapError::InvalidDeadline)
    );
    assert_eq!(map.add(u64::MAX, 0, raw(&[1])), Err(SectorMapError::InvalidDeadline));
    assert_eq!(map.deadlines(), Vec::<u64>::new());
    assert_eq!(map.add_values(WPOST_PERIOD_DEADLINES - 1, 0, &[1]), Ok(()));
    assert_eq!(map.deadlines(), vec![47]);
}

#[test]
fn deadline_map_counts_partitions_and_sectors() {
    let mut map = DeadlineSectorMap::new();
    assert_eq!(map.count(), Ok((0, 0)));
    assert_eq!(map.add_values(7, 2, &[5, 6]), Ok(()));
    assert_eq!(map.add_values(3, 9, &[1]), Ok(()));
    assert_eq!(map.add_values(7, 2, &[6, 7]), Ok(()));
    assert_eq!(map.add_values(7, 0, &[100, 50, 100]), Ok(()));
    assert_eq!(map.count(), Ok((3, 6)));
    assert_eq!(map.deadlines(), vec![3, 7]);
    assert_eq!(map.partitions_at(7), Some(vec![0, 2]));
    assert_eq!(map.partitions_at(3), Some(vec![9]));
    assert_eq!(map.partitions_at(4), None);
    assert_eq!(map.sectors_at(7, 2), Some(vec![5, 6, 7]));
    assert_eq!(map.sectors_at(7, 0), Some(vec![50, 100]));
    assert_eq!(map.sectors_at(7, 1), None);
    assert_eq!(map.sectors_at(8, 2), None);
    assert_eq!(map.listing_at(3), Some(vec![(9, vec![1])]));
    assert_eq!(
        map.iter(),
        vec![(3, vec![(9, vec![1])]), (7, vec![(0, vec![50, 100]), (2, vec![5, 6, 7])])]
    );
}

#[test]
fn deadline_map_checks_against_the_maxima() {
    let mut map = DeadlineSectorMap::new();
    map.add_values(1, 1, &[1, 2, 3]).unwrap();
    map.add_values(2, 1, &[4]).unwrap();
    assert_eq!(map.check(2, 4), Ok(()));
    assert_eq!(map.check(1, 4), Err(SectorMapError::TooManyPartitions));
    assert_eq!(map.check(2, 3), Err(SectorMapError::TooManySectors));
    assert_eq!(map.check(1, 3), Err(SectorMapError::TooManyPartitions));
    assert_eq!(map.check(u64::MAX, u64::MAX), Ok(()));
}

#[test]
fn deadline_map_check_fails_on_a_bitfield_out_of_order() {
    let mut map = DeadlineSectorMap::new();
    map.add(1, 1, raw(&[3, 2])).unwrap();
    assert_eq!(map.count(), Err(SectorMapError::InvalidBitField));
    assert_eq!(map.check(10, 10), Err(SectorMapError::InvalidBitField));
    assert_eq!(map.add(1, 1, raw(&[5])), Err(SectorMapError::InvalidBitField));
    assert_eq!(map.sectors_at(1, 1), Some(vec![3, 2]));
}
