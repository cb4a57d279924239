use pumpkin_java_multiversion::api::rewriter::particle::{
    channel_float_bits, explode, int_to_float_bits, level_particles, read_particle, write_particle, Particle,
    ParticleData, ParticleName, ParticleRegistry, ParticleT, VibrationSource,
};
use pumpkin_java_multiversion::api::types::WireType;
use pumpkin_java_multiversion::api::wrapper::PacketWrapper;
use pumpkin_java_multiversion::api::TranslateError;
use pumpkin_java_multiversion::codec::{write_bool, write_i32, write_var_int};
use pumpkin_java_multiversion::data::mappings::{ComposedMappings, IdMapping};
use pumpkin_java_multiversion::packet::mappings::PacketId;
use pumpkin_java_multiversion::version::JavaMinecraftVersion;
use pumpkin_java_multiversion::version::JavaMinecraftVersion as V;

const LEVEL_PARTICLES: PacketId = PacketId { key: 40, v26_3: 41 };
const EXPLODE: PacketId = PacketId { key: 41, v26_3: 33 };

const BLOCK: i32 = 1;
const DUST: i32 = 2;
const ENTITY_EFFECT: i32 = 3;
const FLAME: i32 = 4;
const VIBRATION: i32 = 5;
const GEYSER_BASE: i32 = 6;
const EXPLOSION_EMITTER: i32 = 7;
const EXPLOSION: i32 = 8;

/// A slice of the newest particle registry, by id.
fn registry() -> ParticleRegistry {
    ParticleRegistry {
        names: vec![
            ParticleName::Plain,
            ParticleName::Block,
            ParticleName::Dust,
            ParticleName::EntityEffect,
            ParticleName::Plain,
            ParticleName::Vibration,
            ParticleName::GeyserBase,
            ParticleName::Plain,
            ParticleName::Plain,
            ParticleName::Item,
        ],
    }
}

/// A client that numbers its particles differently and lacks the geyser,
/// with stone moved and sound 108 missing.
fn ids(version: JavaMinecraftVersion) -> ComposedMappings {
    let mut ids = ComposedMappings::identity();
    if version != JavaMinecraftVersion::V_26_3 {
        ids.particles = IdMapping::from_table(vec![0, 1, 2, 3, 12, 5, -1, 17, 18, 9]);
        ids.blockstates = IdMapping::from_table(vec![0, 6]);
        let mut sounds: Vec<i32> = (0..800).map(|id| id + 2).collect();
        sounds[108] = -1;
        ids.sounds = IdMapping::from_table(sounds);
    }
    ids
}

fn mapped(id: i32, version: JavaMinecraftVersion) -> i32 {
    ids(version).particles.map(id as u32).unwrap() as i32
}

type Pass = fn(&mut PacketWrapper, JavaMinecraftVersion, &ParticleRegistry, &ComposedMappings) -> Result<(), TranslateError>;

fn run(pass: Pass, packet: PacketId, payload: &[u8], version: JavaMinecraftVersion) -> Option<Vec<u8>> {
    let ids = ids(version);
    let mut wrapper = PacketWrapper::new(packet, payload);
    pass(&mut wrapper, version, &registry(), &ids).unwrap();
    wrapper.finish().unwrap().map(|out| out.payload)
}

fn write_f32(out: &mut Vec<u8>, v: f32) {
    out.extend_from_slice(&v.to_be_bytes());
}

fn write_f64(out: &mut Vec<u8>, v: f64) {
    out.extend_from_slice(&v.to_be_bytes());
}

/// The `LEVEL_PARTICLES` core writes: the id leads below 1.20.5 and
/// follows the count from it, with the option data always at the end.
fn particles_payload(id: i32, data: &[u8], version: JavaMinecraftVersion) -> Vec<u8> {
    let mut out = Vec::new();
    if version.older_than(JavaMinecraftVersion::V_1_20_5) {
        if version.at_least(JavaMinecraftVersion::V_1_19) {
            write_var_int(&mut out, id);
        } else {
            write_i32(&mut out, id);
        }
    }
    write_bool(&mut out, true);
    if version.at_least(JavaMinecraftVersion::V_1_21_4) {
        write_bool(&mut out, false);
    }
    for coordinate in [1.0f64, 2.0, 3.0] {
        write_f64(&mut out, coordinate);
    }
    for offset in [0.1f32, 0.2, 0.3, 0.5] {
        write_f32(&mut out, offset);
    }
    write_i32(&mut out, 4);
    if version.at_least(JavaMinecraftVersion::V_1_20_5) {
        write_var_int(&mut out, id);
    }
    out.extend_from_slice(data);
    out
}

/// The seam entity metadata reads and writes through: a byte cursor in,
/// a byte buffer out, and no packet to cancel.
#[test]
fn the_slice_seam_reports_what_it_cannot_say() {
    let version = JavaMinecraftVersion::V_1_18_2;
    let ids = ids(version);
    let registry = registry();

    let mut payload = Vec::new();
    write_var_int(&mut payload, BLOCK);
    write_var_int(&mut payload, 1);
    let (block, end) = read_particle(&payload, 0, &registry).unwrap();
    assert_eq!(end, payload.len());

    let mut out = Vec::new();
    assert!(write_particle(&mut out, &block, version, &registry, &ids));
    let mut expected = Vec::new();
    write_var_int(&mut expected, mapped(BLOCK, version));
    write_var_int(&mut expected, ids.blockstates.map(1).unwrap() as i32);
    assert_eq!(out, expected);

    // 1.18 wants the position a vibration started from, which the packet
    // no longer carries, and the geysers are 26.2's.
    let vibration = Particle {
        id: VIBRATION,
        data: ParticleData::Vibration { source: VibrationSource::Block(0), ticks: 20 },
    };
    let geyser = Particle { id: GEYSER_BASE, data: ParticleData::Geyser { water_blocks: 1, impulse: 0 } };
    let mut out = Vec::new();
    assert!(!write_particle(&mut out, &vibration, version, &registry, &ids));
    assert!(!write_particle(&mut out, &geyser, version, &registry, &ids));
    assert!(out.is_empty());
}

/// Flame takes no option data on any version, so only its id moves.
#[test]
fn a_plain_particle_is_renumbered_in_every_layout() {
    for version in [JavaMinecraftVersion::V_26_2, JavaMinecraftVersion::V_1_21, JavaMinecraftVersion::V_1_16_2] {
        let out = run(level_particles, LEVEL_PARTICLES, &particles_payload(FLAME, &[], version), version).unwrap();
        assert_eq!(out, particles_payload(mapped(FLAME, version), &[], version), "{}", version.name());
    }
}

/// 1.21.2 packed the dust colour into one int; below it the client reads
/// three floats.
#[test]
fn the_dust_colour_is_unpacked_below_1_21_2() {
    for version in [JavaMinecraftVersion::V_1_21, JavaMinecraftVersion::V_1_16_2] {
        let mut data = Vec::new();
        write_i32(&mut data, 0x00ff_8000);
        write_f32(&mut data, 1.5);

        let mut expected = Vec::new();
        for channel in [1.0f32, 128.0 / 255.0, 0.0] {
            write_f32(&mut expected, channel);
        }
        write_f32(&mut expected, 1.5);

        let out = run(level_particles, LEVEL_PARTICLES, &particles_payload(DUST, &data, version), version).unwrap();
        assert_eq!(out, particles_payload(mapped(DUST, version), &expected, version), "{}", version.name());
    }
}

/// 1.20.5 gave `entity_effect` its colour; below it the client takes an
/// unused speed as the colour instead.
#[test]
fn the_potion_colour_moves_into_the_speed_below_1_20_5() {
    let version = JavaMinecraftVersion::V_1_20_2;
    let speed = 1 + 1 + 24 + 12;

    let mut payload = particles_payload(ENTITY_EFFECT, &[], version);
    payload[speed..speed + 4].copy_from_slice(&0f32.to_be_bytes());
    write_i32(&mut payload, 64);

    let mut expected = particles_payload(mapped(ENTITY_EFFECT, version), &[], version);
    expected[speed..speed + 4].copy_from_slice(&64f32.to_be_bytes());
    assert_eq!(run(level_particles, LEVEL_PARTICLES, &payload, version).unwrap(), expected);
}

/// The geyser particles are 26.2's and have no stand in below it.
#[test]
fn a_particle_the_client_lacks_drops_the_packet() {
    let version = JavaMinecraftVersion::V_1_21;
    assert!(ids(version).particles.map(GEYSER_BASE as u32).is_none());
    let mut data = Vec::new();
    write_i32(&mut data, 3);
    write_f32(&mut data, 1.0);
    assert!(run(level_particles, LEVEL_PARTICLES, &particles_payload(GEYSER_BASE, &data, version), version).is_none());
}

/// The explosion core writes: a knockback option, one particle and the
/// sound holder from 1.21.2, two particles behind the block list from
/// 1.20.3, and neither below it.
fn explode_payload(particle: i32, small: i32, sound: i32, version: JavaMinecraftVersion) -> Vec<u8> {
    let mut out = Vec::new();
    if version.at_least(V::V_1_21_2) {
        for coordinate in [1.0f64, 2.0, 3.0] {
            write_f64(&mut out, coordinate);
        }
        if version.at_least(V::V_1_21_9) {
            write_f32(&mut out, 4.0);
            write_i32(&mut out, 0);
        }
        write_bool(&mut out, false);
        write_var_int(&mut out, particle);
        write_var_int(&mut out, sound + 1);
        if version.at_least(V::V_1_21_9) {
            write_var_int(&mut out, 0);
        }
        return out;
    }

    for coordinate in [1.0f32, 2.0, 3.0] {
        if version.at_least(V::V_1_19_3) {
            write_f64(&mut out, f64::from(coordinate));
        } else {
            write_f32(&mut out, coordinate);
        }
    }
    write_f32(&mut out, 4.0);
    if version.at_least(V::V_1_17) {
        write_var_int(&mut out, 0);
    } else {
        write_i32(&mut out, 0);
    }
    for knockback in [0.0f32; 3] {
        write_f32(&mut out, knockback);
    }
    if version.at_least(V::V_1_20_3) {
        write_var_int(&mut out, 1);
        write_var_int(&mut out, small);
        write_var_int(&mut out, particle);
        write_var_int(&mut out, sound + 1);
    }
    out
}

#[test]
fn the_explosion_particle_and_sound_are_renumbered() {
    for version in [JavaMinecraftVersion::V_26_2, JavaMinecraftVersion::V_1_21_4, JavaMinecraftVersion::V_1_20_5] {
        let ids = ids(version);
        let out = run(explode, EXPLODE, &explode_payload(EXPLOSION_EMITTER, EXPLOSION, 700, version), version).unwrap();
        let sound = ids.sounds.map(700).unwrap() as i32;
        assert_eq!(
            out,
            explode_payload(mapped(EXPLOSION_EMITTER, version), mapped(EXPLOSION, version), sound, version),
            "{}",
            version.name()
        );
    }
}

/// The 1.16.2 explosion ends after the knockback, with no particle or
/// sound to renumber.
#[test]
fn the_oldest_explosion_layout_is_copied() {
    let version = JavaMinecraftVersion::V_1_16_2;
    let payload = explode_payload(0, 0, 0, version);
    assert_eq!(run(explode, EXPLODE, &payload, version).unwrap(), payload);
}

/// Sound 108 is one the client has no stand in for, and the explosion goes
/// with it.
#[test]
fn a_sound_the_client_lacks_drops_the_explosion() {
    let version = JavaMinecraftVersion::V_1_20_5;
    assert!(ids(version).sounds.map(108).is_none());
    assert!(run(explode, EXPLODE, &explode_payload(EXPLOSION_EMITTER, EXPLOSION, 108, version), version).is_none());
}

#[test]
fn channel_floats_match_the_float_division() {
    for c in 0..=255u8 {
        assert_eq!(channel_float_bits(c), (f32::from(c) / 255.0).to_bits(), "channel {c}");
    }
}

#[test]
fn integers_become_the_nearest_float() {
    for v in [0, 1, -1, 64, 255, 16_777_216, 16_777_217, 16_777_219, -16_777_217, 33_554_435, i32::MAX, i32::MIN, 123_456_789] {
        assert_eq!(int_to_float_bits(v), (v as f32).to_bits(), "{v}");
    }
}

#[test]
fn an_item_particle_is_refused_until_items_are_rewritten() {
    let mut payload = Vec::new();
    write_var_int(&mut payload, 9);
    assert!(matches!(read_particle(&payload, 0, &registry()), Err(TranslateError::Unsupported("item particle"))));
}

#[test]
fn a_vibration_is_named_from_1_19_to_1_20_2() {
    let version = JavaMinecraftVersion::V_1_19;
    let registry = registry();
    let ids = ids(version);
    let particle = Particle {
        id: VIBRATION,
        data: ParticleData::Vibration { source: VibrationSource::Entity { id: 7, y_offset: 0 }, ticks: 20 },
    };
    let mut out = Vec::new();
    assert!(write_particle(&mut out, &particle, version, &registry, &ids));
    let mut expected = vec![5, 16];
    expected.extend_from_slice(b"minecraft:entity");
    expected.extend_from_slice(&[7, 0, 0, 0, 0, 20]);
    assert_eq!(out, expected);
}

#[test]
fn a_particle_written_in_the_newest_form_reads_back() {
    let registry = registry();
    let particle_t = ParticleT(&registry);
    for particle in [
        Particle { id: BLOCK, data: ParticleData::Block(9) },
        Particle { id: DUST, data: ParticleData::Dust { rgb: 0x00ff_8000, scale: 0x3f80_0000 } },
        Particle { id: ENTITY_EFFECT, data: ParticleData::Color(-1) },
        Particle { id: FLAME, data: ParticleData::Empty },
        Particle {
            id: VIBRATION,
            data: ParticleData::Vibration { source: VibrationSource::Entity { id: 300, y_offset: 5 }, ticks: 20 },
        },
        Particle { id: GEYSER_BASE, data: ParticleData::Geyser { water_blocks: 3, impulse: 7 } },
    ] {
        let mut out = vec![0xaa];
        assert!(particle_t.write(&mut out, &particle));
        out.push(0xbb);
        let (read, end) = particle_t.read(&out, 1).unwrap();
        assert_eq!(read, particle);
        assert_eq!(end, out.len() - 1);
    }
    let mut out = Vec::new();
    assert!(particle_t.write(&mut out, &Particle { id: BLOCK, data: ParticleData::Block(9) }));
    assert_eq!(out, vec![1, 9]);
}

#[test]
fn a_particle_whose_data_does_not_fit_its_shape_is_not_written() {
    let registry = registry();
    let particle_t = ParticleT(&registry);
    let mut out = vec![1];
    assert!(!particle_t.write(&mut out, &Particle { id: DUST, data: ParticleData::Float(1) }));
    assert_eq!(out, vec![1]);
    // The item particle is refused until items are read here.
    assert_eq!(particle_t.read(&[9, 0], 0), None);
}
