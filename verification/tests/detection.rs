//! End-to-end tests of the decode pipeline, against a plain sequential
//! oracle over host arrays.

use shanan_cv::data::DataBuffer;
use shanan_cv::kernel::{BboxArgs, BboxOut};
use shanan_cv::postprocess::detection::{Yolo26, Yolo26Config, Yolo26Error};

const N: usize = 1;
const CLS: usize = 8;
const H: usize = 20;
const W: usize = 20;

fn sigmoid(x: f32) -> f32 {
    1.0 / (1.0 + (-x).exp())
}

fn sigmoid_op(x: u32) -> u32 {
    sigmoid(f32::from_bits(x)).to_bits()
}

fn decode_op(a: BboxArgs) -> BboxOut {
    let grid_x = a.col as f32 + 0.5;
    let grid_y = a.row as f32 + 0.5;
    let stride = f32::from_bits(a.stride);
    let width = a.width as f32;
    let height = a.height as f32;
    let cx = f32::from_bits(a.cx);
    let cy = f32::from_bits(a.cy);
    let cw = f32::from_bits(a.cw);
    let ch = f32::from_bits(a.ch);
    let xmin = ((grid_x - cx) * stride).clamp(0.0, width);
    let ymin = ((grid_y - cy) * stride).clamp(0.0, height);
    let xmax = ((grid_x + cw) * stride).clamp(0.0, width);
    let ymax = ((grid_y + ch) * stride).clamp(0.0, height);
    BboxOut {
        xmin: (xmin / width).clamp(0.0, 1.0).to_bits(),
        ymin: (ymin / height).clamp(0.0, 1.0).to_bits(),
        xmax: (xmax / width).clamp(0.0, 1.0).to_bits(),
        ymax: (ymax / height).clamp(0.0, 1.0).to_bits(),
    }
}

fn bits_of(v: &[f32]) -> Vec<u32> {
    v.iter().map(|x| x.to_bits()).collect()
}

fn floats_of(v: &[u32]) -> Vec<f32> {
    v.iter().map(|x| f32::from_bits(*x)).collect()
}

fn run_pipeline(
    cls: &[f32],
    reg: &[f32],
    shape: [usize; 4],
    stride: f32,
    width: u32,
    height: u32,
    dim: u32,
) -> (Vec<f32>, Vec<u32>, Vec<f32>) {
    let yolo = Yolo26Config::default()
        .with_shape(width, height)
        .with_dim(dim)
        .build()
        .unwrap();
    let [n, _c, h, w] = shape;
    let cls_buf = DataBuffer::<u32>::from_slice(&bits_of(cls), &shape).unwrap();
    let reg_buf = DataBuffer::<u32>::from_slice(&bits_of(reg), &[n, 4, h, w]).unwrap();
    let (score, index, bbox) = yolo
        .execute(cls_buf, reg_buf, stride.to_bits(), &sigmoid_op, &decode_op)
        .unwrap();
    let score = floats_of(&score.into_vec().unwrap());
    let index = index.into_vec().unwrap();
    let bbox = floats_of(&bbox.into_vec().unwrap());
    (score, index, bbox)
}

/// A plain sequential decode over host arrays, used as the oracle.
fn run_manual(
    cls: Vec<f32>,
    reg: Vec<f32>,
    stride: f32,
    width: usize,
    height: usize,
) -> (Vec<f32>, Vec<u32>, Vec<f32>) {
    assert_eq!(N, 1);

    let mut score_tensor = vec![0.0; N * H * W];
    let mut index_tensor = vec![0u32; N * H * W];
    let mut bbox_tensor = vec![0.0; N * 4 * H * W];

    let spatial = H * W;

    for h in 0..H {
        for w in 0..W {
            let idx = h * W + w;

            let (score, class_id) = {
                let mut max_logit = f32::MIN;
                let mut cls_idx = 0usize;
                for c in 0..CLS {
                    let logit = cls[c * spatial + idx];
                    if logit > max_logit {
                        max_logit = logit;
                        cls_idx = c;
                    }
                }
                (sigmoid(max_logit), cls_idx as u32)
            };

            score_tensor[idx] = score;
            index_tensor[idx] = class_id;

            let cx = reg[idx];
            let cy = reg[spatial + idx];
            let cw = reg[2 * spatial + idx];
            let ch = reg[3 * spatial + idx];

            let grid_x = (w as f32) + 0.5;
            let grid_y = (h as f32) + 0.5;

            let xmin = ((grid_x - cx) * stride).clamp(0.0, width as f32);
            let ymin = ((grid_y - cy) * stride).clamp(0.0, height as f32);
            let xmax = ((grid_x + cw) * stride).clamp(0.0, width as f32);
            let ymax = ((grid_y + ch) * stride).clamp(0.0, height as f32);

            bbox_tensor[idx] = (xmin / width as f32).clamp(0.0, 1.0);
            bbox_tensor[idx + H * W] = (ymin / height as f32).clamp(0.0, 1.0);
            bbox_tensor[idx + 2 * H * W] = (xmax / width as f32).clamp(0.0, 1.0);
            bbox_tensor[idx + 3 * H * W] = (ymax / height as f32).clamp(0.0, 1.0);
        }
    }

    (score_tensor, index_tensor, bbox_tensor)
}

fn compare_with_manual(dim: u32) {
    let random_cls: Vec<f32> = (0..N * CLS * H * W).map(|_| rand::random::<f32>()).collect();
    let random_reg: Vec<f32> = (0..N * 4 * H * W).map(|_| rand::random::<f32>()).collect();

    let (score, index, bbox) = run_pipeline(
        &random_cls,
        &random_reg,
        [N, CLS, H, W],
        32.0,
        640,
        640,
        dim,
    );

    let (score_manual, index_manual, bbox_manual) =
        run_manual(random_cls, random_reg, 32.0, 640, 640);

    for (i, (s, s_manual)) in score.iter().zip(score_manual.iter()).enumerate() {
        assert!(
            (s - s_manual).abs() < 1e-5,
            "score element {} mismatch: {} vs {}",
            i,
            s,
            s_manual
        );
    }

    for (i, (x, x_manual)) in index.iter().zip(index_manual.iter()).enumerate() {
        assert_eq!(x, x_manual, "index element {} mismatch: {} vs {}", i, x, x_manual);
    }

    for (i, (b, b_manual)) in bbox.iter().zip(bbox_manual.iter()).enumerate() {
        assert!(
            (b - b_manual).abs() < 1e-5,
            "bbox element {} mismatch: {} vs {}",
            i,
            b,
            b_manual
        );
    }
}

#[test]
fn test_postprocess_detection_yolo26_cpu() {
    compare_with_manual(256);
}

#[test]
fn test_postprocess_detection_yolo26_single_worker_groups() {
    compare_with_manual(1);
}

#[test]
fn test_postprocess_detection_yolo26_odd_group_size() {
    // 7 does not divide 400, so the last group of every dispatch overshoots.
    compare_with_manual(7);
}

#[test]
fn test_tiebreak_lowest_channel_wins() {
    // Two equal class logits at the one location: the lowest index must win.
    let cls = [0.5f32, 0.5, 0.3];
    let reg = [0.0f32, 0.0, 0.0, 0.0];
    let (score, index, _bbox) = run_pipeline(&cls, &reg, [1, 3, 1, 1], 32.0, 640, 640, 1);
    assert_eq!(index, vec![0u32]);
    assert!((score[0] - sigmoid(0.5)).abs() < 1e-7);
}

#[test]
fn test_sigmoid_boundary_values() {
    let cls = [0.0f32, 20.0, -20.0];
    let reg = [0.0f32; 12];
    // Three locations of one channel each: H = 3 grid rows, W = 1.
    let (score, _index, _bbox) = run_pipeline(&cls, &reg, [1, 1, 3, 1], 32.0, 640, 640, 1);
    assert_eq!(score[0], 0.5);
    assert!(score[1] > 0.9999);
    assert!(score[2] < 0.0001);
}

#[test]
fn test_bbox_clamped_to_unit_interval() {
    // Offsets that project far outside the image must come back clamped:
    // never negative, never greater than one.
    let cls = [1.0f32];
    let reg = [1000.0f32, -1000.0, 1000.0, -1000.0];
    let (_score, _index, bbox) = run_pipeline(&cls, &reg, [1, 1, 1, 1], 32.0, 640, 640, 1);
    // cx = 1000: (0.5 - 1000) * 32 clamps to 0, then 0 / 640 = 0.
    assert_eq!(bbox[0], 0.0);
    // cy = -1000: (0.5 + 1000) * 32 clamps to 640, then 640 / 640 = 1.
    assert_eq!(bbox[1], 1.0);
    // cw = 1000: xmax clamps to the width, normalized to 1.
    assert_eq!(bbox[2], 1.0);
    // ch = -1000: (0.5 - 1000) * 32 clamps to 0.
    assert_eq!(bbox[3], 0.0);
    for b in bbox {
        assert!((0.0..=1.0).contains(&b));
    }
}

#[test]
fn test_bbox_exact_values_inside_image() {
    // Offsets that stay inside the image are decoded without clamping:
    // every output equals the formula evaluated by hand.
    let cls = [0.0f32];
    let reg = [0.25f32, -0.5, 1.5, 2.0];
    let (_score, _index, bbox) = run_pipeline(&cls, &reg, [1, 1, 1, 1], 32.0, 640, 640, 1);
    assert_eq!(bbox[0], (0.5 - 0.25) * 32.0 / 640.0);
    assert_eq!(bbox[1], (0.5 + 0.5) * 32.0 / 640.0);
    assert_eq!(bbox[2], (0.5 + 1.5) * 32.0 / 640.0);
    assert_eq!(bbox[3], (0.5 + 2.0) * 32.0 / 640.0);
}

#[test]
fn test_shape_validation_rejects_wrong_rank() {
    let yolo = Yolo26Config::default().build().unwrap();
    let cls = DataBuffer::<u32>::from_slice(&[0u32; 8], &[2, 2, 2]).unwrap();
    let reg = DataBuffer::<u32>::from_slice(&[0u32; 16], &[1, 4, 2, 2]).unwrap();
    let r = yolo.execute(cls, reg, 32.0f32.to_bits(), &sigmoid_op, &decode_op);
    assert!(matches!(r, Err(Yolo26Error::InvalidInputShape(_))));
}

#[test]
fn test_shape_validation_rejects_mismatched_regression() {
    let yolo = Yolo26Config::default().build().unwrap();
    // Grid sizes disagree between the two tensors.
    let cls = DataBuffer::<u32>::from_slice(&[0u32; 8], &[1, 2, 2, 2]).unwrap();
    let reg = DataBuffer::<u32>::from_slice(&[0u32; 12], &[1, 4, 3, 1]).unwrap();
    let r = yolo.execute(cls, reg, 32.0f32.to_bits(), &sigmoid_op, &decode_op);
    assert!(matches!(r, Err(Yolo26Error::InvalidInputShape(_))));
}

#[test]
fn test_shape_validation_rejects_zero_dimension() {
    let yolo = Yolo26Config::default().build().unwrap();
    let cls = DataBuffer::<u32>::from_slice(&[], &[1, 0, 2, 2]).unwrap();
    let reg = DataBuffer::<u32>::from_slice(&[0u32; 16], &[1, 4, 2, 2]).unwrap();
    let r = yolo.execute(cls, reg, 32.0f32.to_bits(), &sigmoid_op, &decode_op);
    assert!(matches!(r, Err(Yolo26Error::InvalidInputShape(_))));
}

#[test]
fn test_end_to_end_scenario() {
    let cls: Vec<f32> = (0..N * CLS * H * W).map(|_| rand::random::<f32>()).collect();
    let reg: Vec<f32> = (0..N * 4 * H * W).map(|_| rand::random::<f32>()).collect();

    let yolo = Yolo26Config::default()
        .with_shape(640, 640)
        .with_dim(256)
        .build()
        .unwrap();
    let cls_buf = DataBuffer::<u32>::from_slice(&bits_of(&cls), &[N, CLS, H, W]).unwrap();
    let reg_buf = DataBuffer::<u32>::from_slice(&bits_of(&reg), &[N, 4, H, W]).unwrap();
    let (score, index, bbox) = yolo
        .execute(cls_buf, reg_buf, 32.0f32.to_bits(), &sigmoid_op, &decode_op)
        .unwrap();

    assert_eq!(score.shape().to_vec(), vec![N, H, W]);
    assert_eq!(index.shape().to_vec(), vec![N, H, W]);
    assert_eq!(bbox.shape().to_vec(), vec![N, 4, H, W]);

    let index = index.into_vec().unwrap();
    assert_eq!(index.len(), N * H * W);
    for x in index {
        assert!(x <= 7);
    }

    let bbox = floats_of(&bbox.into_vec().unwrap());
    assert_eq!(bbox.len(), N * 4 * H * W);
    for b in bbox {
        assert!((0.0..=1.0).contains(&b));
    }

    let score = floats_of(&score.into_vec().unwrap());
    assert_eq!(score.len(), N * H * W);
    for s in score {
        assert!((0.0..=1.0).contains(&s));
    }
}

#[test]
fn test_batch_dimension_carried_through() {
    // Two batches over a 2 × 2 grid with three classes: each batch must be
    // decoded independently, exactly as the one-batch decode of its block.
    let n = 2usize;
    let c = 3usize;
    let h = 2usize;
    let w = 2usize;
    let cls: Vec<f32> = (0..n * c * h * w).map(|i| ((i * 37 % 19) as f32) / 19.0).collect();
    let reg: Vec<f32> = (0..n * 4 * h * w).map(|i| ((i * 11 % 23) as f32) / 23.0).collect();

    let (score, index, bbox) = run_pipeline(&cls, &reg, [n, c, h, w], 32.0, 640, 640, 1);

    let spatial = h * w;
    for b in 0..n {
        let cls_block = &cls[b * c * spatial..(b + 1) * c * spatial];
        let reg_block = &reg[b * 4 * spatial..(b + 1) * 4 * spatial];
        let (s1, i1, bb1) = run_pipeline(cls_block, reg_block, [1, c, h, w], 32.0, 640, 640, 1);
        assert_eq!(&score[b * spatial..(b + 1) * spatial], &s1[..]);
        assert_eq!(&index[b * spatial..(b + 1) * spatial], &i1[..]);
        // The box tensor is four channel-major planes of n*h*w values each;
        // batch b owns the slots b*spatial .. (b+1)*spatial of every plane.
        for k in 0..4 {
            assert_eq!(
                &bbox[k * n * spatial + b * spatial..k * n * spatial + (b + 1) * spatial],
                &bb1[k * spatial..(k + 1) * spatial]
            );
        }
    }
}

#[test]
fn test_config_defaults_applied() {
    // A config left at its defaults decodes against a 640 × 640 image with
    // one worker per group; an explicit identical config must agree.
    let cls = [0.25f32, 0.75];
    let reg = [0.1f32, 0.2, 0.3, 0.4, 0.5, 0.6, 0.7, 0.8];
    let a = {
        let yolo = Yolo26Config::default().build().unwrap();
        let cls_buf = DataBuffer::<u32>::from_slice(&bits_of(&cls), &[1, 1, 1, 2]).unwrap();
        let reg_buf = DataBuffer::<u32>::from_slice(&bits_of(&reg), &[1, 4, 1, 2]).unwrap();
        yolo.execute(cls_buf, reg_buf, 32.0f32.to_bits(), &sigmoid_op, &decode_op)
            .unwrap()
    };
    let b = run_pipeline(&cls, &reg, [1, 1, 1, 2], 32.0, 640, 640, 1);
    assert_eq!(floats_of(&a.0.into_vec().unwrap()), b.0);
    assert_eq!(a.1.into_vec().unwrap(), b.1);
    assert_eq!(floats_of(&a.2.into_vec().unwrap()), b.2);
}
