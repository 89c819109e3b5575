//! The renderer resource model and the per-frame parameter record.

use sdf_playground::common::{params_bytes, time_fx_from_bits, Params, TIME_FX_MAX};
use sdf_playground::compiler::Artifact;
use sdf_playground::renderer::Renderer;
use sdf_playground::sdf::Sdf;

fn artifact(stamp: u64) -> Artifact {
    Artifact { stamp, scene: Sdf::Sphere { radius: 65536 } }
}

#[test]
fn construction_sizes_resources_for_the_viewport() {
    let r = Renderer::new(640, 480, artifact(5));
    let t = r.texture_view();
    assert_eq!((t.width, t.height), (640, 480));
    let d = r.render();
    assert_eq!((d.width, d.height, d.artifact_stamp), (640, 480, 5));
}

#[test]
fn resize_rebuilds_the_whole_set_at_new_dimensions() {
    let mut r = Renderer::new(640, 480, artifact(5));
    r.update(&Params { width: 640, height: 480, time_bits: 0 });
    r.resize(1024, 768);
    // Every resource the next draw references is sized for the new
    // viewport; the artifact is reused.
    let t = r.texture_view();
    assert_eq!((t.width, t.height), (1024, 768));
    let d = r.render();
    assert_eq!((d.width, d.height, d.artifact_stamp), (1024, 768, 5));
}

#[test]
fn default_params_are_all_zero() {
    let p = Params::default();
    assert_eq!((p.width, p.height, p.time_bits), (0, 0, 0));
}

#[test]
fn params_serialize_little_endian() {
    let p = Params { width: 1, height: 258, time_bits: 0x3f80_0000 };
    let bytes = params_bytes(&p);
    assert_eq!(
        bytes,
        vec![1, 0, 0, 0, 2, 1, 0, 0, 0, 0, 0x80, 0x3f]
    );
}

#[test]
fn params_serialize_to_twelve_bytes() {
    let p = Params { width: 0xdead_beef, height: 0, time_bits: 0xffff_ffff };
    let bytes = params_bytes(&p);
    assert_eq!(bytes.len(), 12);
    assert_eq!(&bytes[0..4], &[0xef, 0xbe, 0xad, 0xde]);
    assert_eq!(&bytes[8..12], &[0xff, 0xff, 0xff, 0xff]);
}

#[test]
fn float_bits_decode_to_fixed_point() {
    assert_eq!(time_fx_from_bits(0), 0);
    assert_eq!(time_fx_from_bits(0x3f80_0000), 65536); // 1.0
    assert_eq!(time_fx_from_bits(0x3f00_0000), 32768); // 0.5
    assert_eq!(time_fx_from_bits(0x4000_0000), 131072); // 2.0
    assert_eq!(time_fx_from_bits(0xc000_0000), -131072); // -2.0
    assert_eq!(time_fx_from_bits(0x42f6_0000), 123 * 65536); // 123.0
    // Subnormals collapse to zero.
    assert_eq!(time_fx_from_bits(0x0000_0001), 0);
    // Huge values and infinities saturate.
    assert_eq!(time_fx_from_bits(0x7f80_0000), TIME_FX_MAX);
    assert_eq!(time_fx_from_bits(0x5015_02f9), TIME_FX_MAX); // 1e10
    assert_eq!(time_fx_from_bits(0xff80_0000), -TIME_FX_MAX);
}
