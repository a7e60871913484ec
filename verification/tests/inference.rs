use std::collections::HashMap;

use candle_core::{DType, Device, Tensor};

use real_cugan::engine::UpCunet2x;
use real_cugan::engine3::{RealCugan, UpCunet3x};
use real_cugan::errors::CuganError;
use real_cugan::pad::{crop, reflection_pad};
use real_cugan::se_block::SeBlockConfig;
use real_cugan::tensor_ops::WeightSource;
use real_cugan::tiling::{padded_extent, tile_count};
use real_cugan::unet1::UNet1Config;
use real_cugan::unet_conv::{leaky_relu, UNetConvConfig};

/// Deterministic small pseudo-random weight values.
fn filled(name: &str, shape: &[usize], dev: &Device) -> Tensor {
    let count: usize = shape.iter().product();
    let seed: u64 = name.bytes().fold(7u64, |a, b| a.wrapping_mul(31).wrapping_add(b as u64));
    let mut vals: Vec<f32> = Vec::with_capacity(count);
    let mut s = seed;
    for _ in 0..count {
        s = s.wrapping_mul(6364136223846793005).wrapping_add(1442695040888963407);
        let v = ((s >> 33) % 2000) as f32 / 1000.0 - 1.0;
        vals.push(v * 0.1);
    }
    Tensor::from_vec(vals, shape, dev).unwrap()
}

fn conv_entries(map: &mut HashMap<String, Tensor>, name: &str, shape: (usize, usize, usize), dev: &Device) {
    let (out_c, in_c, k) = shape;
    map.insert(format!("{name}.weight"), filled(&format!("{name}.weight"), &[out_c, in_c, k, k], dev));
    map.insert(format!("{name}.bias"), filled(&format!("{name}.bias"), &[out_c], dev));
}

fn convt_entries(map: &mut HashMap<String, Tensor>, name: &str, shape: (usize, usize, usize), dev: &Device) {
    let (in_c, out_c, k) = shape;
    map.insert(format!("{name}.weight"), filled(&format!("{name}.weight"), &[in_c, out_c, k, k], dev));
    map.insert(format!("{name}.bias"), filled(&format!("{name}.bias"), &[out_c], dev));
}

/// Every parameter of the 2x network, with deterministic values.
fn weights_2x(dev: &Device) -> HashMap<String, Tensor> {
    let mut m = HashMap::new();
    conv_entries(&mut m, "unet1.conv1.conv.0", (32, 3, 3), dev);
    conv_entries(&mut m, "unet1.conv1.conv.2", (64, 32, 3), dev);
    conv_entries(&mut m, "unet1.conv1_down", (64, 64, 2), dev);
    conv_entries(&mut m, "unet1.conv2.conv.0", (128, 64, 3), dev);
    conv_entries(&mut m, "unet1.conv2.conv.2", (64, 128, 3), dev);
    conv_entries(&mut m, "unet1.conv2.seblock.conv1", (8, 64, 1), dev);
    conv_entries(&mut m, "unet1.conv2.seblock.conv2", (64, 8, 1), dev);
    convt_entries(&mut m, "unet1.conv2_up", (64, 64, 2), dev);
    conv_entries(&mut m, "unet1.conv3", (64, 64, 3), dev);
    convt_entries(&mut m, "unet1.conv_bottom", (64, 3, 4), dev);
    conv_entries(&mut m, "unet2.conv1.conv.0", (32, 3, 3), dev);
    conv_entries(&mut m, "unet2.conv1.conv.2", (64, 32, 3), dev);
    conv_entries(&mut m, "unet2.conv1_down", (64, 64, 2), dev);
    conv_entries(&mut m, "unet2.conv2.conv.0", (64, 64, 3), dev);
    conv_entries(&mut m, "unet2.conv2.conv.2", (128, 64, 3), dev);
    conv_entries(&mut m, "unet2.conv2.seblock.conv1", (16, 128, 1), dev);
    conv_entries(&mut m, "unet2.conv2.seblock.conv2", (128, 16, 1), dev);
    conv_entries(&mut m, "unet2.conv2_down", (128, 128, 2), dev);
    conv_entries(&mut m, "unet2.conv3.conv.0", (256, 128, 3), dev);
    conv_entries(&mut m, "unet2.conv3.conv.2", (128, 256, 3), dev);
    conv_entries(&mut m, "unet2.conv3.seblock.conv1", (16, 128, 1), dev);
    conv_entries(&mut m, "unet2.conv3.seblock.conv2", (128, 16, 1), dev);
    convt_entries(&mut m, "unet2.conv3_up", (128, 128, 2), dev);
    conv_entries(&mut m, "unet2.conv4.conv.0", (64, 128, 3), dev);
    conv_entries(&mut m, "unet2.conv4.conv.2", (64, 64, 3), dev);
    conv_entries(&mut m, "unet2.conv4.seblock.conv1", (8, 64, 1), dev);
    conv_entries(&mut m, "unet2.conv4.seblock.conv2", (64, 8, 1), dev);
    convt_entries(&mut m, "unet2.conv4_up", (64, 64, 2), dev);
    conv_entries(&mut m, "unet2.conv5", (64, 64, 3), dev);
    conv_entries(&mut m, "unet2.conv_bottom", (3, 64, 3), dev);
    m
}

/// As the 2x set, with the 3x stage-A output head.
fn weights_3x(dev: &Device) -> HashMap<String, Tensor> {
    let mut m = weights_2x(dev);
    m.remove("unet1.conv_bottom.weight");
    m.remove("unet1.conv_bottom.bias");
    convt_entries(&mut m, "unet1.conv_bottom", (64, 3, 5), dev);
    m
}

fn alpha_one(dev: &Device) -> Tensor {
    Tensor::from_vec(vec![1.0f32], (1, 1, 1, 1), dev).unwrap()
}

/// A normalized synthetic image tensor (values in the network's working
/// range) with a deterministic gradient pattern.
fn image(h: usize, w: usize, dev: &Device) -> Tensor {
    let mut vals: Vec<f32> = Vec::with_capacity(3 * h * w);
    for c in 0..3usize {
        for i in 0..h {
            for j in 0..w {
                let v = ((i * 37 + j * 11 + c * 5) % 256) as f32;
                vals.push(v / 255.0 * 0.7 + 0.15);
            }
        }
    }
    Tensor::from_vec(vals, (1, 3, h, w), dev).unwrap()
}

fn flat(t: &Tensor) -> Vec<f32> {
    t.flatten_all().unwrap().to_vec1::<f32>().unwrap()
}

fn build_2x(tile: Option<usize>, cache: bool, dev: &Device) -> UpCunet2x {
    let vb = WeightSource::from_tensors(weights_2x(dev), dev);
    UpCunet2x::new(3, 3, &alpha_one(dev), tile, cache, &vb).unwrap()
}

#[test]
fn tiled_equals_whole_on_divisible_image() {
    let dev = Device::Cpu;
    let whole = build_2x(None, true, &dev);
    let tiled = build_2x(Some(12), true, &dev);
    let x = image(24, 24, &dev);
    let yw = whole.forward(&x).unwrap();
    let yt = tiled.forward(&x).unwrap();
    assert_eq!(yw.dims(), &[1, 3, 48, 48]);
    assert_eq!(yt.dims(), &[1, 3, 48, 48]);
    let a = flat(&yw);
    let b = flat(&yt);
    for (u, v) in a.iter().zip(b.iter()) {
        let denom = u.abs().max(1.0);
        assert!((u - v).abs() / denom <= 1e-3, "tiled {v} vs whole {u}");
    }
    assert!(a.iter().any(|v| *v != a[0]), "output should not be constant");
    assert!(a.iter().all(|v| v.fract() == 0.0), "output should be rounded");
    assert!(a.iter().all(|v| (0.0..=255.0).contains(v)), "output should be clamped");
}

#[test]
fn cache_on_and_off_agree_exactly() {
    let dev = Device::Cpu;
    let cached = build_2x(Some(20), true, &dev);
    let uncached = build_2x(Some(20), false, &dev);
    let x = image(20, 38, &dev);
    let a = flat(&cached.forward(&x).unwrap());
    let b = flat(&uncached.forward(&x).unwrap());
    assert_eq!(a, b);
}

#[test]
fn mean_of_tile_means_matches_global_mean() {
    let dev = Device::Cpu;
    let vals: Vec<f32> = (0..16).map(|v| v as f32).collect();
    let map = Tensor::from_vec(vals, (1, 1, 4, 4), &dev).unwrap();
    let global = map.mean_keepdim((2, 3)).unwrap().flatten_all().unwrap().to_vec1::<f32>().unwrap()[0];
    let mut tile_means = Vec::new();
    for i in 0..2 {
        for j in 0..2 {
            let t = map.narrow(2, i * 2, 2).unwrap().narrow(3, j * 2, 2).unwrap();
            tile_means.push(
                t.mean_keepdim((2, 3)).unwrap().flatten_all().unwrap().to_vec1::<f32>().unwrap()[0],
            );
        }
    }
    let avg = tile_means.iter().sum::<f32>() / tile_means.len() as f32;
    assert_eq!(avg, global);
}

#[test]
fn pad_then_crop_is_identity() {
    let dev = Device::Cpu;
    let x = image(5, 7, &dev);
    for (axis, l, r) in [(3usize, 2usize, 3usize), (2, 1, 2), (3, 0, 4), (2, 4, 0)] {
        let padded = reflection_pad(&x, axis, l, r).unwrap();
        let back = crop(&padded, axis, l, r).unwrap();
        assert_eq!(back.dims(), x.dims());
        assert_eq!(flat(&back), flat(&x));
    }
}

#[test]
fn reflection_pad_mirrors_interior_samples() {
    let dev = Device::Cpu;
    let x = Tensor::from_vec(vec![1.0f32, 2.0, 3.0, 4.0], (1, 1, 1, 4), &dev).unwrap();
    let padded = reflection_pad(&x, 3, 2, 2).unwrap();
    assert_eq!(padded.dims(), &[1, 1, 1, 8]);
    assert_eq!(flat(&padded), vec![3.0, 2.0, 1.0, 2.0, 3.0, 4.0, 3.0, 2.0]);
}

#[test]
fn non_multiple_dimensions_trim_to_scaled_size() {
    let dev = Device::Cpu;
    let tiled = build_2x(Some(8), true, &dev);
    let x = image(22, 27, &dev);
    let y = tiled.forward(&x).unwrap();
    assert_eq!(y.dims(), &[1, 3, 44, 54]);
}

#[test]
fn oversized_tile_collapses_to_one_tile_and_matches_whole() {
    let dev = Device::Cpu;
    let whole = build_2x(None, true, &dev);
    let tiled = build_2x(Some(22), true, &dev);
    let x = image(21, 21, &dev);
    let a = flat(&whole.forward(&x).unwrap());
    let b = flat(&tiled.forward(&x).unwrap());
    assert_eq!(a.len(), 3 * 42 * 42);
    assert_eq!(a, b);
}

#[test]
fn odd_tile_size_is_rejected_before_any_work() {
    let dev = Device::Cpu;
    let vb = WeightSource::from_tensors(HashMap::new(), &dev);
    let r = UpCunet2x::new(3, 3, &alpha_one(&dev), Some(3), true, &vb);
    assert!(matches!(r, Err(CuganError::InvalidTileSize)));
}

#[test]
fn zero_tile_size_is_rejected() {
    let dev = Device::Cpu;
    let vb = WeightSource::from_zeros(&dev);
    let r = UpCunet2x::new(3, 3, &alpha_one(&dev), Some(0), true, &vb);
    assert!(matches!(r, Err(CuganError::InvalidTileSize)));
}

#[test]
fn missing_weights_are_a_compute_error() {
    let dev = Device::Cpu;
    let vb = WeightSource::from_tensors(HashMap::new(), &dev);
    let r = UpCunet2x::new(3, 3, &alpha_one(&dev), None, true, &vb);
    assert!(matches!(r, Err(CuganError::Compute(_))));
}

#[test]
fn channel_mismatch_is_a_shape_error() {
    let dev = Device::Cpu;
    let model = build_2x(None, true, &dev);
    let x = Tensor::zeros((1usize, 4usize, 20usize, 20usize), DType::F32, &dev).unwrap();
    assert!(matches!(model.forward(&x), Err(CuganError::ShapeMismatch)));
    let bad_rank = Tensor::zeros((3usize, 8usize, 8usize), DType::F32, &dev).unwrap();
    assert!(matches!(model.forward(&bad_rank), Err(CuganError::ShapeMismatch)));
}

#[test]
fn mismatched_channel_config_is_rejected() {
    let dev = Device::Cpu;
    let vb = WeightSource::from_zeros(&dev);
    let r = UpCunet2x::new(3, 4, &alpha_one(&dev), None, true, &vb);
    assert!(matches!(r, Err(CuganError::InvalidInput)));
}

#[test]
fn x3_whole_image_upscales_by_three() {
    let dev = Device::Cpu;
    let vb = WeightSource::from_tensors(weights_3x(&dev), &dev);
    let model = UpCunet3x::new(3, 3, &alpha_one(&dev), None, true, &vb).unwrap();
    let x = image(21, 22, &dev);
    let y = model.forward(&x).unwrap();
    assert_eq!(y.dims(), &[1, 3, 63, 66]);
    let vals = flat(&y);
    assert!(vals.iter().all(|v| (0.0..=255.0).contains(v)), "output should be clamped");
}

#[test]
fn x3_tiled_equals_whole_on_divisible_image() {
    let dev = Device::Cpu;
    let vb = WeightSource::from_tensors(weights_3x(&dev), &dev);
    let whole = UpCunet3x::new(3, 3, &alpha_one(&dev), None, true, &vb).unwrap();
    let tiled = UpCunet3x::new(3, 3, &alpha_one(&dev), Some(12), true, &vb).unwrap();
    let x = image(24, 24, &dev);
    let yw = whole.forward(&x).unwrap();
    let yt = tiled.forward(&x).unwrap();
    assert_eq!(yw.dims(), &[1, 3, 72, 72]);
    assert_eq!(yt.dims(), &[1, 3, 72, 72]);
    let a = flat(&yw);
    let b = flat(&yt);
    for (u, v) in a.iter().zip(b.iter()) {
        let denom = u.abs().max(1.0);
        assert!((u - v).abs() / denom <= 1e-3, "tiled {v} vs whole {u}");
    }
    assert!(a.iter().any(|v| *v != a[0]), "output should not be constant");
}

#[test]
fn x3_tiled_trims_to_three_times_the_input() {
    let dev = Device::Cpu;
    let vb = WeightSource::from_tensors(weights_3x(&dev), &dev);
    let tiled = UpCunet3x::new(3, 3, &alpha_one(&dev), Some(12), true, &vb).unwrap();
    let x = image(21, 22, &dev);
    let y = tiled.forward(&x).unwrap();
    assert_eq!(y.dims(), &[1, 3, 63, 66]);
}

#[test]
fn x3_odd_tile_size_is_rejected() {
    let dev = Device::Cpu;
    let vb = WeightSource::from_zeros(&dev);
    let r = UpCunet3x::new(3, 3, &alpha_one(&dev), Some(3), true, &vb);
    assert!(matches!(r, Err(CuganError::InvalidTileSize)));
}

#[test]
fn x3_unaligned_tile_size_is_rejected() {
    let dev = Device::Cpu;
    let vb = WeightSource::from_zeros(&dev);
    let r = UpCunet3x::new(3, 3, &alpha_one(&dev), Some(6), true, &vb);
    assert!(matches!(r, Err(CuganError::InvalidTileSize)));
}

#[test]
fn dispatcher_upscales_at_each_scale() {
    let dev = Device::Cpu;
    let m2 = RealCugan::X2(build_2x(None, true, &dev));
    let y2 = m2.forward(&image(20, 20, &dev)).unwrap();
    assert_eq!(y2.dims(), &[1, 3, 40, 40]);
    let vb = WeightSource::from_tensors(weights_3x(&dev), &dev);
    let m3 = RealCugan::X3(UpCunet3x::new(3, 3, &alpha_one(&dev), None, true, &vb).unwrap());
    let y3 = m3.forward(&image(20, 20, &dev)).unwrap();
    assert_eq!(y3.dims(), &[1, 3, 60, 60]);
}

#[test]
fn alpha_scales_the_refinement_branch() {
    let dev = Device::Cpu;
    let vb = WeightSource::from_tensors(weights_2x(&dev), &dev);
    let low = Tensor::from_vec(vec![0.5f32], (1, 1, 1, 1), &dev).unwrap();
    let a = UpCunet2x::new(3, 3, &alpha_one(&dev), None, true, &vb).unwrap();
    let b = UpCunet2x::new(3, 3, &low, None, true, &vb).unwrap();
    let x = image(20, 20, &dev);
    let ya = flat(&a.forward(&x).unwrap());
    let yb = flat(&b.forward(&x).unwrap());
    assert_ne!(ya, yb);
}

#[test]
fn padded_extent_and_tile_count_round_up() {
    assert_eq!(padded_extent(7, 4), 8);
    assert_eq!(padded_extent(8, 4), 8);
    assert_eq!(padded_extent(1, 2), 2);
    assert_eq!(tile_count(7, 4), 2);
    assert_eq!(tile_count(8, 4), 2);
    assert_eq!(tile_count(9, 4), 3);
    assert_eq!(tile_count(1, 8), 1);
}

#[test]
fn leaky_relu_scales_only_the_negative_part() {
    let dev = Device::Cpu;
    let x = Tensor::from_vec(vec![-1.0f32, 0.0, 2.0, -0.5], (1, 1, 1, 4), &dev).unwrap();
    let y = leaky_relu(&x, 1, 10).unwrap();
    assert_eq!(flat(&y), vec![-0.1, 0.0, 2.0, -0.05]);
}

#[test]
fn pad_rejects_margins_the_extent_cannot_mirror() {
    let dev = Device::Cpu;
    let x = image(3, 3, &dev);
    assert!(matches!(
        reflection_pad(&x, 3, 3, 0),
        Err(CuganError::InvalidInput)
    ));
    assert!(matches!(
        reflection_pad(&x, 2, 0, 5),
        Err(CuganError::InvalidInput)
    ));
}

#[test]
fn config_blocks_build_their_modules() {
    let dev = Device::Cpu;
    let vb = WeightSource::from_zeros(&dev);
    let se = SeBlockConfig::new(64);
    assert_eq!(se.reduction, 8);
    assert!(se.init_with(&vb).is_ok());
    let tiny = SeBlockConfig { in_channels: 4, reduction: 8, bias: true };
    assert!(matches!(tiny.init_with(&vb), Err(CuganError::InvalidInput)));
    let uc = UNetConvConfig::new(3, 32, 64);
    let block = uc.init_with(&vb, true).unwrap();
    assert!(block.seblock.is_some());
    let block2 = uc.init_with(&vb, false).unwrap();
    assert!(block2.seblock.is_none());
    let u1 = UNet1Config::new(3, 3, false);
    let stage = u1.init_with(&vb, true).unwrap();
    assert!(stage.conv2.seblock.is_some());
}
