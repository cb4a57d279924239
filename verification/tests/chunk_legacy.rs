use pumpkin_java_multiversion::data::mappings::IdMapping;
use pumpkin_java_multiversion::packet::chunk_legacy::{
    copy_named_nbt, count_ones, per_long, read_biomes, skip_light, to_v1_16, unpack, BlockContainer,
};
use pumpkin_java_multiversion::codec::{read_bool, read_i32, read_var_int, write_i16, write_i32, write_i64, write_var_int};

/// Named heightmaps: an empty compound with an empty root name.
fn heightmaps() -> Vec<u8> {
    vec![10, 0, 0, 0]
}

/// A 1.17 chunk: position, a one long mask, heightmaps, biomes, the section
/// blob and one byte standing for the block entities.
fn v1_17(mask: i64, sections: &[u8]) -> Vec<u8> {
    let mut out = Vec::new();
    write_i32(&mut out, 3);
    write_i32(&mut out, -2);
    write_var_int(&mut out, 1);
    write_i64(&mut out, mask);
    out.extend(heightmaps());
    write_var_int(&mut out, 2);
    write_var_int(&mut out, 1);
    write_var_int(&mut out, 300);
    write_var_int(&mut out, sections.len() as i32);
    out.extend(sections);
    out.push(0);
    out
}

fn section(block_count: i16, state: i32) -> Vec<u8> {
    let mut out = Vec::new();
    write_i16(&mut out, block_count);
    out.push(4);
    write_var_int(&mut out, 1);
    write_var_int(&mut out, state);
    write_var_int(&mut out, 1);
    write_i64(&mut out, 0);
    out
}

#[test]
fn the_1_16_mask_replaces_the_bit_set() {
    let chunk = v1_17(1, &section(4096, 5));
    let states = IdMapping::from_table(vec![0, 1, 2, 3, 4, 7]);
    let out = to_v1_16(&chunk, &states).expect("converted");

    let (x, p) = read_i32(&out, 0).unwrap();
    assert_eq!(x, 3);
    let (z, p) = read_i32(&out, p).unwrap();
    assert_eq!(z, -2);
    let (full, p) = read_bool(&out, p).unwrap();
    assert!(full, "full chunk");
    let (mask, p) = read_var_int(&out, p).unwrap();
    assert_eq!(mask, 1);
    let mut heights = Vec::new();
    let end = copy_named_nbt(&out, p, &mut heights).unwrap();
    assert_eq!(heights, heightmaps());
    assert_eq!(&out[end..end + 4], &[2, 1, 0xac, 0x02]);
    let mut expected = section(4096, 7);
    expected.insert(0, expected.len() as u8);
    expected.push(0);
    assert_eq!(&out[end + 4..], &expected[..]);
}

#[test]
fn a_section_the_mask_does_not_name_is_refused() {
    let chunk = v1_17(1, &[section(1, 1), section(1, 1)].concat());
    assert!(to_v1_16(&chunk, &IdMapping::identity()).is_none());
    let two = v1_17(0b101, &[section(1, 1), section(1, 1)].concat());
    assert!(to_v1_16(&two, &IdMapping::identity()).is_some());
}

#[test]
fn a_mask_wider_than_a_var_int_is_refused() {
    let chunk = v1_17(1 << 40, &[]);
    assert!(to_v1_16(&chunk, &IdMapping::identity()).is_none());
}

#[test]
fn a_single_value_container_becomes_a_one_entry_palette() {
    let mut bytes = vec![0];
    write_var_int(&mut bytes, 9);
    write_var_int(&mut bytes, 0);
    let (container, end) = BlockContainer::read(&bytes, 0).unwrap();
    assert_eq!(end, bytes.len());
    assert_eq!(container.bits, 4);
    assert_eq!(container.palette, vec![9]);
    assert_eq!(container.packed, vec![0; 256]);
    let mut direct = vec![15];
    write_var_int(&mut direct, 0);
    assert!(BlockContainer::read(&direct, 0).is_none());
}

#[test]
fn a_renumbered_id_that_maps_nowhere_becomes_air() {
    let container = BlockContainer { bits: 4, palette: vec![1, 2], packed: vec![] };
    let mut out = Vec::new();
    assert!(container.write(&mut out, &IdMapping::from_table(vec![0, 5])));
    assert_eq!(out, vec![4, 2, 5, 0, 0]);
}

#[test]
fn packed_entries_never_span_two_longs() {
    assert_eq!(per_long(4), 16);
    assert_eq!(per_long(5), 12);
    let longs = [0x0000_0000_0000_0321i64, 0x7];
    assert_eq!(unpack(&longs, 4, 3), Some(vec![1, 2, 3]));
    assert_eq!(unpack(&longs, 5, 13), Some(vec![1, 25, 0, 0, 0, 0, 0, 0, 0, 0, 0, 0, 7]));
    assert_eq!(unpack(&longs, 4, 33), None);
}

#[test]
fn biomes_are_looked_up_in_their_palette() {
    let mut bytes = vec![1];
    write_var_int(&mut bytes, 2);
    write_var_int(&mut bytes, 40);
    write_var_int(&mut bytes, 41);
    write_var_int(&mut bytes, 1);
    write_i64(&mut bytes, 0b10);
    let (biomes, end) = read_biomes(&bytes, 0).unwrap();
    assert_eq!(end, bytes.len());
    assert_eq!(biomes.len(), 64);
    assert_eq!(biomes[0], 40);
    assert_eq!(biomes[1], 41);
    assert_eq!(biomes[2], 40);
    let mut single = vec![0];
    write_var_int(&mut single, 7);
    write_var_int(&mut single, 0);
    assert_eq!(read_biomes(&single, 0), Some((vec![7; 64], single.len())));
}

#[test]
fn the_light_block_is_walked_to_its_end() {
    let mut bytes = vec![1];
    for _ in 0..4 {
        write_var_int(&mut bytes, 0);
    }
    write_var_int(&mut bytes, 1);
    write_var_int(&mut bytes, 2);
    bytes.extend([9, 9]);
    write_var_int(&mut bytes, -1);
    assert_eq!(skip_light(&bytes, 0), Some(bytes.len()));
    assert_eq!(skip_light(&bytes[..bytes.len() - 2], 0), None);
}

#[test]
fn set_bits_are_counted() {
    assert_eq!(count_ones(0), 0);
    assert_eq!(count_ones(0b1011), 3);
    assert_eq!(count_ones(u64::MAX), 64);
}
