use pbrt::camera::CameraSample;
use pbrt::fixed::ONE;
use pbrt::geometry::{Point2, Point2i};
use pbrt::rng::{make_key, mix, pack_pixel, to_unit};
use pbrt::sampler::{first_array_dimension, Sampler, SamplerCursor};
use pbrt::samplers::halton::{
    mirror_digits, pixel_offset, prime_base, sample_halton_1d, sample_halton_2d, HaltonSampler,
};
use pbrt::samplers::random::{sample_random_1d, sample_random_2d, RandomSampler};
use pbrt::samplers::stratified::{sample_stratified_1d, sample_stratified_2d, StratifiedSampler};
use pbrt::samplers::zerotwosequence::{
    round_up_pow2, sample_zero_two_1d, sample_zero_two_2d, sobol_second, ZeroTwoSequenceSampler,
};

const PIXEL: Point2i = Point2i { x: 3, y: 5 };

fn all_samplers(seed: u64) -> Vec<Sampler> {
    vec![
        Sampler::Halton(HaltonSampler::new(4)),
        Sampler::Random(RandomSampler::new(4, seed)),
        Sampler::Stratified(StratifiedSampler::new(2, 2, true, seed)),
        Sampler::ZeroTwoSequence(ZeroTwoSequenceSampler::new(3, seed)),
    ]
}

/// Drives a sampler through a fixed sequence of calls and writes down everything it hands
/// back.
fn trace(sampler: &mut Sampler) -> Vec<i64> {
    let mut out: Vec<i64> = Vec::new();
    sampler.request_2d_array(3);
    sampler.request_2d_array(2);
    for &pixel in [PIXEL, Point2i { x: -7, y: 100 }].iter() {
        sampler.start_pixel(pixel);
        loop {
            out.push(sampler.get_1d() as i64);
            let p = sampler.get_2d();
            out.push(p.x as i64);
            out.push(p.y as i64);
            let cs = sampler.get_camera_sample(pixel);
            out.extend([cs.p_film.x, cs.p_film.y, cs.time, cs.p_lens.x, cs.p_lens.y].iter().map(|v| *v as i64));
            for n in [3, 2, 1].iter() {
                match sampler.get_2d_array(*n) {
                    Some(samples) => {
                        out.push(samples.len() as i64);
                        for s in samples.iter() {
                            out.push(s.x as i64);
                            out.push(s.y as i64);
                        }
                    }
                    None => out.push(-1),
                }
            }
            out.push(sampler.get_current_sample_number());
            if !sampler.start_next_sample() {
                break;
            }
        }
    }
    out
}

#[test]
fn clones_with_one_seed_hand_out_the_same_values() {
    for parent in all_samplers(1).iter() {
        let mut a = parent.clone_with_seed(99);
        let mut b = parent.clone_with_seed(99);
        assert_eq!(*a, *b);
        assert_eq!(trace(&mut a), trace(&mut b));
        assert_eq!(*a, *b);
    }
}

#[test]
fn clones_with_different_seeds_differ_where_the_algorithm_is_random() {
    for (i, parent) in all_samplers(1).iter().enumerate() {
        let mut a = parent.clone_with_seed(99);
        let mut b = parent.clone_with_seed(100);
        let same = trace(&mut a) == trace(&mut b);
        // the Halton sequence takes no notice of the seed
        assert_eq!(same, i == 0);
    }
}

#[test]
fn clone_keeps_the_algorithm_and_the_place_in_the_stream() {
    let mut parent = Sampler::Stratified(StratifiedSampler::new(3, 2, false, 5));
    parent.request_2d_array(4);
    parent.start_pixel(PIXEL);
    parent.start_next_sample();
    parent.get_1d();
    let clone = parent.clone_with_seed(77);
    match &*clone {
        Sampler::Stratified(s) => {
            assert_eq!((s.x_pixel_samples, s.y_pixel_samples, s.jitter_samples), (3, 2, false));
            assert_eq!(
                s.cursor,
                SamplerCursor {
                    samples_per_pixel: 6,
                    seed: 77,
                    current_pixel: PIXEL,
                    current_pixel_sample_index: 1,
                    dimension: 1,
                    array_sizes: vec![4],
                    array_offset: 0,
                }
            );
        }
        _ => panic!("the clone is another algorithm"),
    }
    assert_eq!(clone.get_samples_per_pixel(), parent.get_samples_per_pixel());
}

#[test]
fn every_value_lies_in_the_unit_interval() {
    for sampler in all_samplers(12345).iter_mut() {
        for v in trace(sampler).iter() {
            // sample numbers and array lengths are small, film points lie in the pixel
            assert!(*v >= -7 * (ONE as i64) && *v < 101 * (ONE as i64));
        }
        sampler.start_pixel(PIXEL);
        for _ in 0..200 {
            let a = sampler.get_1d();
            assert!(0 <= a && a < ONE);
            let p = sampler.get_2d();
            assert!(0 <= p.x && p.x < ONE && 0 <= p.y && p.y < ONE);
        }
        for idx in 0..50 {
            let p = sampler.get_2d_sample(1, idx);
            assert!(0 <= p.x && p.x < ONE && 0 <= p.y && p.y < ONE);
        }
    }
}

#[test]
fn bits_are_mixed_as_specified() {
    assert_eq!(mix(0), 16294208416658607535);
    assert_eq!(mix(1), 10451216379200822465);
    assert_eq!(pack_pixel(PIXEL), (3u64 << 32) | 5);
    assert_eq!(pack_pixel(Point2i { x: -1, y: -2 }), 0xffff_ffff_ffff_fffe);
    assert_eq!(make_key(7, PIXEL, 0, 0), 6756699951316661873);
    assert_eq!(to_unit(0), 0);
    assert_eq!(to_unit(u64::MAX), 65535);
    assert_eq!(to_unit(1u64 << 63), 32768);
}

#[test]
fn random_values() {
    let expected = [24004, 57230, 11881, 46603, 45610];
    for (dim, e) in expected.iter().enumerate() {
        assert_eq!(sample_random_1d(7, PIXEL, 0, dim as u32), *e);
    }
    assert_eq!(sample_random_2d(7, PIXEL, 0, 1), Point2 { x: 57230, y: 11881 });
    let mut sampler = Sampler::Random(RandomSampler::new(16, 7));
    sampler.start_pixel(PIXEL);
    assert_eq!(sampler.get_1d(), 24004);
    assert_eq!(sampler.get_2d(), Point2 { x: 57230, y: 11881 });
    assert_eq!(sampler.get_1d(), 46603);
}

#[test]
fn radical_inverse_values() {
    assert_eq!(mirror_digits(2, 0), 0);
    let base2 = [32768, 16384, 49152, 8192, 40960];
    for (i, e) in base2.iter().enumerate() {
        assert_eq!(mirror_digits(2, i as u128 + 1), *e);
    }
    let base3 = [21845, 43690, 7281, 29126];
    for (i, e) in base3.iter().enumerate() {
        assert_eq!(mirror_digits(3, i as u128 + 1), *e);
    }
    // digits that no longer count are dropped
    assert_eq!(mirror_digits(2, 1 << 16), 0);
    assert_eq!(mirror_digits(2, (1 << 16) + 1), 32768);
    assert_eq!(mirror_digits(53, u128::MAX) < ONE, true);
}

#[test]
fn prime_bases() {
    let primes = [2, 3, 5, 7, 11, 13, 17, 19, 23, 29, 31, 37, 41, 43, 47, 53];
    for (k, p) in primes.iter().enumerate() {
        assert_eq!(prime_base(k as u32), *p);
        assert_eq!(prime_base(k as u32 + 16), *p);
    }
}

#[test]
fn halton_values() {
    assert_eq!(pixel_offset(PIXEL), 378446);
    let first = [29283, 53686, 24851, 49983, 15884];
    for (dim, e) in first.iter().enumerate() {
        assert_eq!(sample_halton_1d(PIXEL, 0, dim as u32), *e);
    }
    assert_eq!(sample_halton_2d(PIXEL, 1, 0), Point2 { x: 62051, y: 17277 });
    let mut sampler = Sampler::Halton(HaltonSampler::new(8));
    sampler.start_pixel(PIXEL);
    assert_eq!(sampler.get_2d(), Point2 { x: 29283, y: 53686 });
    assert_eq!(sampler.get_1d(), 24851);
    assert!(sampler.start_next_sample());
    assert_eq!(sampler.get_1d(), 62051);
}

#[test]
fn stratified_values() {
    let plain = [57344, 8192, 24576, 40960];
    let jittered = [55153, 10728, 18179, 37220];
    for i in 0..4 {
        assert_eq!(sample_stratified_1d(4, false, 7, PIXEL, i as u64, 0), plain[i]);
        assert_eq!(sample_stratified_1d(4, true, 7, PIXEL, i as u64, 0), jittered[i]);
    }
    let grid = [(49152, 49152), (16384, 16384), (49152, 16384), (16384, 49152)];
    for i in 0..4 {
        let p = sample_stratified_2d(2, 2, false, 7, PIXEL, i as u64, 0);
        assert_eq!((p.x, p.y), grid[i]);
    }
    // a count of strata below one counts as one
    assert_eq!(sample_stratified_1d(0, false, 7, PIXEL, 3, 0), 32768);
    assert_eq!(sample_stratified_1d(-5, false, 7, PIXEL, 3, 0), 32768);
    let p = sample_stratified_2d(0, -1, false, 7, PIXEL, 3, 0);
    assert_eq!((p.x, p.y), (32768, 32768));
}

#[test]
fn stratified_samples_visit_every_stratum_once() {
    for dim in 0..6u32 {
        let mut seen = [false; 5];
        for i in 0..5u64 {
            let v = sample_stratified_1d(5, true, 42, PIXEL, i, dim);
            let stratum = (v as i64 * 5 / ONE as i64) as usize;
            assert!(!seen[stratum]);
            seen[stratum] = true;
        }
        let mut cells = [[false; 3]; 4];
        for i in 0..12u64 {
            let p = sample_stratified_2d(3, 4, true, 42, PIXEL, i, dim);
            let cx = (p.x as i64 * 3 / ONE as i64) as usize;
            let cy = (p.y as i64 * 4 / ONE as i64) as usize;
            assert!(!cells[cy][cx]);
            cells[cy][cx] = true;
        }
    }
}

#[test]
fn stratified_sampler_takes_a_sample_in_every_cell() {
    let sampler = Sampler::Stratified(StratifiedSampler::new(3, 4, true, 1));
    assert_eq!(sampler.get_samples_per_pixel(), 12);
    let degenerate = Sampler::Stratified(StratifiedSampler::new(0, -4, true, 1));
    assert_eq!(degenerate.get_samples_per_pixel(), 1);
}

#[test]
fn sobol_values() {
    let expected = [32768, 49152, 16384, 40960, 8192, 24576, 57344];
    assert_eq!(sobol_second(0), 0);
    for (i, e) in expected.iter().enumerate() {
        assert_eq!(sobol_second(i as u64 + 1), *e);
    }
}

#[test]
fn zero_two_sequence_values() {
    let expected = [(20228, 55616), (52996, 22848), (3844, 6464), (36612, 39232)];
    for (i, e) in expected.iter().enumerate() {
        let p = sample_zero_two_2d(7, PIXEL, i as u64, 0);
        assert_eq!((p.x, p.y), *e);
        assert_eq!(sample_zero_two_1d(7, PIXEL, i as u64, 0), e.0);
    }
}

#[test]
fn zero_two_sequence_is_stratified_in_both_coordinates() {
    // any aligned block of sixteen samples has one sample in each sixteenth of either axis
    for block in 0..4u64 {
        let mut xs = [false; 16];
        let mut ys = [false; 16];
        for i in 0..16u64 {
            let p = sample_zero_two_2d(1234, PIXEL, block * 16 + i, 4);
            let x = (p.x >> 12) as usize;
            let y = (p.y >> 12) as usize;
            assert!(!xs[x] && !ys[y]);
            xs[x] = true;
            ys[y] = true;
        }
    }
}

#[test]
fn counts_are_rounded_to_what_the_algorithm_can_handle() {
    let samplers = all_samplers(1);
    for count in [-3, 0, 1, 2, 3, 5, 16, 17, 1000].iter() {
        assert_eq!(samplers[0].round_count(*count), *count);
        assert_eq!(samplers[1].round_count(*count), *count);
        assert_eq!(samplers[2].round_count(*count), *count);
    }
    let z2 = &samplers[3];
    assert_eq!(z2.round_count(-3), 1);
    assert_eq!(z2.round_count(0), 1);
    assert_eq!(z2.round_count(1), 1);
    assert_eq!(z2.round_count(2), 2);
    assert_eq!(z2.round_count(3), 4);
    assert_eq!(z2.round_count(5), 8);
    assert_eq!(z2.round_count(16), 16);
    assert_eq!(z2.round_count(17), 32);
    assert_eq!(z2.round_count(1000), 1024);
    assert_eq!(z2.round_count(0x4000_0000), 0x4000_0000);
    assert_eq!(z2.round_count(0x4000_0001), 0x4000_0000);
    assert_eq!(z2.round_count(i32::MAX), 0x4000_0000);
    assert_eq!(round_up_pow2(33), 64);
    // the sampler takes a power of two of samples in every pixel
    assert_eq!(z2.get_samples_per_pixel(), 4);
}

#[test]
fn start_pixel_resets_the_cursor() {
    for sampler in all_samplers(3).iter_mut() {
        sampler.request_2d_array(2);
        sampler.start_pixel(PIXEL);
        let first = (sampler.get_1d(), sampler.get_2d());
        sampler.start_next_sample();
        sampler.get_2d_array(2);
        sampler.get_1d();
        sampler.start_pixel(PIXEL);
        assert_eq!(sampler.get_current_pixel(), PIXEL);
        assert_eq!(sampler.get_current_sample_number(), 0);
        assert_eq!((sampler.get_1d(), sampler.get_2d()), first);
        assert!(sampler.get_2d_array(2).is_some());
    }
}

#[test]
fn samples_are_counted_up_to_the_budget() {
    for sampler in all_samplers(3).iter_mut() {
        let spp = sampler.get_samples_per_pixel();
        assert_eq!(spp, 4);
        sampler.start_pixel(PIXEL);
        assert!(sampler.start_next_sample());
        assert!(sampler.start_next_sample());
        assert!(sampler.start_next_sample());
        assert_eq!(sampler.get_current_sample_number(), 3);
        assert!(!sampler.start_next_sample());
        assert_eq!(sampler.get_current_sample_number(), 4);
        assert!(!sampler.start_next_sample());
    }
}

#[test]
fn the_sample_counter_stops_at_the_end_of_the_range() {
    let mut cursor = SamplerCursor::new(4, 0);
    cursor.current_pixel_sample_index = i64::MAX;
    assert!(!cursor.start_next_sample());
    assert_eq!(cursor.current_pixel_sample_index, i64::MAX);
}

#[test]
fn repeated_calls_within_a_sample_use_new_dimensions() {
    for sampler in all_samplers(3).iter_mut() {
        sampler.start_pixel(PIXEL);
        let a = sampler.get_1d();
        let b = sampler.get_1d();
        let c = sampler.get_1d();
        assert!(a != b || b != c);
        // the same dimension of the same sample gives the same number again
        sampler.start_pixel(PIXEL);
        assert_eq!(sampler.get_1d(), a);
        assert_eq!(sampler.get_1d(), b);
        assert_eq!(sampler.get_1d(), c);
    }
}

#[test]
fn only_a_global_sampler_can_jump_to_a_sample() {
    let mut samplers = all_samplers(3);
    for sampler in samplers.iter_mut() {
        sampler.start_pixel(PIXEL);
        sampler.get_1d();
    }
    assert!(samplers[0].set_sample_number(2));
    assert_eq!(samplers[0].get_current_sample_number(), 2);
    assert_eq!(samplers[0].get_1d(), sample_halton_1d(PIXEL, 2, 0));
    assert!(!samplers[0].set_sample_number(4));
    assert_eq!(samplers[0].get_current_sample_number(), 4);
    assert!(samplers[0].set_sample_number(-1));
    for sampler in samplers[1..].iter_mut() {
        let before = sampler.clone_with_seed(3);
        assert!(!sampler.set_sample_number(2));
        assert_eq!(sampler.get_current_sample_number(), 0);
        assert_eq!(*sampler, *before);
    }
}

#[test]
fn reseeding_changes_the_stream() {
    let mut a = Sampler::Random(RandomSampler::new(4, 1));
    a.start_pixel(PIXEL);
    let first = a.get_1d();
    a.reseed(2);
    a.start_pixel(PIXEL);
    assert_eq!(a.get_1d(), sample_random_1d(2, PIXEL, 0, 0));
    assert_eq!((first, sample_random_1d(2, PIXEL, 0, 0)), (36021, 37));
    a.reseed(1);
    a.start_pixel(PIXEL);
    assert_eq!(a.get_1d(), first);
}

#[test]
fn camera_sample_is_made_of_the_next_five_numbers() {
    for seed in [1u64, 2, 3].iter() {
        for (i, parent) in all_samplers(*seed).iter().enumerate() {
            let mut a = parent.clone_with_seed(*seed);
            let mut b = parent.clone_with_seed(*seed);
            a.start_pixel(PIXEL);
            b.start_pixel(PIXEL);
            a.get_1d();
            b.get_1d();
            let cs = a.get_camera_sample(Point2i { x: 10, y: -20 });
            let film = b.get_2d();
            let time = b.get_1d();
            let lens = b.get_2d();
            assert_eq!(
                cs,
                CameraSample {
                    p_film: Point2 { x: 10 * ONE + film.x, y: -20 * ONE + film.y },
                    time,
                    p_lens: lens,
                },
                "sampler {}",
                i
            );
            assert_eq!(a.get_1d(), b.get_1d());
        }
    }
}

#[test]
fn camera_sample_far_off_stops_at_the_end_of_the_range() {
    let mut sampler = Sampler::Random(RandomSampler::new(4, 1));
    sampler.start_pixel(PIXEL);
    let cs = sampler.get_camera_sample(Point2i { x: 40000, y: -40000 });
    assert_eq!(cs.p_film.x, i32::MAX);
    assert!(cs.p_film.y < i32::MIN + ONE);
}

#[test]
fn arrays_are_handed_out_in_the_order_of_asking() {
    for sampler in all_samplers(9).iter_mut() {
        sampler.request_2d_array(3);
        sampler.request_2d_array(2);
        sampler.start_pixel(PIXEL);
        sampler.start_next_sample();
        let first = sampler.get_2d_array(3).unwrap();
        assert_eq!(first.len(), 3);
        for (k, s) in first.iter().enumerate() {
            assert_eq!(*s, sampler.get_2d_sample(0, 3 + k));
        }
        let second = sampler.get_2d_array(2).unwrap();
        assert_eq!(second.len(), 2);
        for (k, s) in second.iter().enumerate() {
            assert_eq!(*s, sampler.get_2d_sample(1, 2 + k));
        }
        // no third array was asked for
        assert_eq!(sampler.get_2d_array(2), None);
        assert_eq!(sampler.get_2d_array_idxs(2), (false, 0, 0));
        // the next sample starts with the first array again
        sampler.start_next_sample();
        assert_eq!(sampler.get_2d_array_idxs(3), (true, 0, 6));
        assert_eq!(sampler.get_2d_array_idxs(2), (true, 1, 4));
    }
}

#[test]
fn an_array_is_not_handed_out_under_another_size() {
    for sampler in all_samplers(9).iter_mut() {
        sampler.request_2d_array(3);
        sampler.start_pixel(PIXEL);
        assert_eq!(sampler.get_2d_array(2), None);
        assert_eq!(sampler.get_2d_array_idxs(4), (false, 0, 0));
        // the array is still there under its own size
        assert_eq!(sampler.get_2d_array_idxs(3), (true, 0, 0));
    }
}

#[test]
fn an_array_is_not_handed_out_beyond_the_budget() {
    for sampler in all_samplers(9).iter_mut() {
        sampler.request_2d_array(3);
        sampler.start_pixel(PIXEL);
        while sampler.start_next_sample() {}
        assert_eq!(sampler.get_2d_array(3), None);
    }
    let mut cursor = SamplerCursor::new(4, 0);
    cursor.request_2d_array(3);
    cursor.current_pixel_sample_index = -1;
    assert_eq!(cursor.get_2d_array_idxs(3), (false, 0, 0));
    let mut negative = SamplerCursor::new(4, 0);
    negative.request_2d_array(-3);
    assert_eq!(negative.get_2d_array_idxs(-3), (false, 0, 0));
    let mut empty = SamplerCursor::new(4, 0);
    empty.request_2d_array(0);
    assert_eq!(empty.get_2d_array_idxs(0), (true, 0, 0));
}

#[test]
fn array_samples_live_in_their_own_dimensions() {
    assert_eq!(first_array_dimension(0), 0x8000_0000);
    assert_eq!(first_array_dimension(1), 0x8000_0002);
    assert_eq!(first_array_dimension(0x4000_0000), 0);
    let sampler = Sampler::Random(RandomSampler::new(4, 7));
    // the pixel of a new sampler is the origin
    let origin = Point2i { x: 0, y: 0 };
    assert_eq!(sampler.get_2d_sample(1, 5), sample_random_2d(7, origin, 5, 0x8000_0002));
    let mut at_pixel = Sampler::Random(RandomSampler::new(4, 7));
    at_pixel.start_pixel(PIXEL);
    assert_eq!(at_pixel.get_2d_sample(0, 0), Point2 { x: 25607, y: 28901 });
    assert_eq!(at_pixel.get_2d_sample(0, 1), Point2 { x: 48632, y: 15265 });
    assert_eq!(at_pixel.get_2d_sample(0, 2), Point2 { x: 7206, y: 20078 });
}

#[test]
fn cursor_of_a_new_sampler() {
    let cursor = SamplerCursor::new(9, 4);
    assert_eq!(
        cursor,
        SamplerCursor {
            samples_per_pixel: 9,
            seed: 4,
            current_pixel: Point2i { x: 0, y: 0 },
            current_pixel_sample_index: 0,
            dimension: 0,
            array_sizes: vec![],
            array_offset: 0,
        }
    );
    assert_eq!(cursor.sample_index(), 0);
    let mut moved = cursor.clone_with_seed(5);
    moved.advance(u32::MAX);
    moved.advance(3);
    assert_eq!(moved.dimension, 2);
    moved.current_pixel_sample_index = -4;
    assert_eq!(moved.sample_index(), 0);
    moved.set_sample_number(6);
    assert_eq!(moved.sample_index(), 6);
    assert_eq!(moved.dimension, 0);
}
