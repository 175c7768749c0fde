use orbital_render::sampler::{accept, running_max, OrbitalSampler};
use orbital_render::wavefunc::{PolyFactor, Psi};

#[test]
fn collect_takes_accepted_candidates_in_order() {
    let mut s: OrbitalSampler<f32> = OrbitalSampler::new(5);
    let xs = vec![1.0, 2.0, 3.0, 4.0];
    let ys = vec![10.0, 20.0, 30.0, 40.0];
    let zs = vec![-1.0, -2.0, -3.0, -4.0];
    let taken = s.collect(&xs, &ys, &zs, &vec![true, false, true, true]);
    assert_eq!(taken, 3);
    assert_eq!(s.points, vec![[1.0, 10.0, -1.0], [3.0, 30.0, -3.0], [4.0, 40.0, -4.0]]);
    assert!(!s.is_complete());
    assert_eq!(s.missing(), 2);
}

#[test]
fn collect_stops_when_complete() {
    let mut s: OrbitalSampler<f32> = OrbitalSampler::new(2);
    let xs = vec![1.0, 2.0, 3.0, 4.0];
    let taken = s.collect(&xs, &xs, &xs, &vec![false, true, true, true]);
    assert_eq!(taken, 2);
    assert_eq!(s.points, vec![[2.0, 2.0, 2.0], [3.0, 3.0, 3.0]]);
    assert!(s.is_complete());
    let again = s.collect(&xs, &xs, &xs, &vec![true, true, true, true]);
    assert_eq!(again, 0);
    assert_eq!(s.points.len(), 2);
}

#[test]
fn collect_of_a_rejected_batch_takes_nothing() {
    let mut s: OrbitalSampler<f32> = OrbitalSampler::new(3);
    let xs = vec![1.0, 2.0];
    assert_eq!(s.collect(&xs, &xs, &xs, &vec![false, false]), 0);
    assert_eq!(s.collect(&Vec::new(), &Vec::new(), &Vec::new(), &Vec::new()), 0);
    assert!(s.points.is_empty());
}

#[test]
fn sampler_returns_exactly_the_count() {
    let mut s: OrbitalSampler<f32> = OrbitalSampler::new(100);
    let mut seed: u32 = 7;
    let mut batches = 0;
    while !s.is_complete() {
        let mut xs = Vec::new();
        let mut proxies = Vec::new();
        for _ in 0..16 {
            seed = seed.wrapping_mul(1664525).wrapping_add(1013904223);
            let x = (seed >> 8) as f32 / (1u32 << 24) as f32;
            xs.push(x);
            proxies.push(x * x);
        }
        let maxes = running_max(&proxies, |a, b| a > b);
        let flags = accept(&proxies, &maxes, |p, m| p / m >= 0.02);
        for (j, flag) in flags.iter().enumerate() {
            let largest = proxies[..=j].iter().cloned().fold(0.0f32, f32::max);
            assert_eq!(maxes[j], largest);
            assert_eq!(*flag, proxies[j] / largest >= 0.02);
        }
        assert!(flags[0]);
        let before = s.points.len();
        let taken = s.collect(&xs, &xs, &xs, &flags);
        assert_eq!(s.points.len(), before + taken);
        batches += 1;
        assert!(batches < 1000);
    }
    assert_eq!(s.points.len(), 100);
    assert_eq!(s.instance_data().len(), 300);
}

#[test]
fn instance_data_is_three_components_a_point() {
    let mut s: OrbitalSampler<f32> = OrbitalSampler::new(2);
    s.collect(&vec![1.0, 2.0], &vec![3.0, 4.0], &vec![5.0, 6.0], &vec![true, true]);
    assert_eq!(s.instance_data(), vec![1.0, 3.0, 5.0, 2.0, 4.0, 6.0]);
}

#[test]
fn factors_of_the_4p_orbital() {
    let psi = Psi::new(4, 1, 0);
    assert_eq!(psi, Psi { n: 4, l: 1, m: 0 });
    assert_eq!(psi.angular(), PolyFactor { degree: 1, derivatives: 0 });
    assert_eq!(psi.radial(), PolyFactor { degree: 5, derivatives: 3 });
    assert_eq!(psi.radial().remaining_degree(), 2);
}

#[test]
fn factors_of_the_ground_state() {
    let psi = Psi::new(1, 0, 0);
    assert_eq!(psi.angular(), PolyFactor { degree: 0, derivatives: 0 });
    assert_eq!(psi.radial(), PolyFactor { degree: 1, derivatives: 1 });
    assert_eq!(psi.radial().remaining_degree(), 0);
    assert_eq!(PolyFactor { degree: 1, derivatives: 3 }.remaining_degree(), 0);
}

#[test]
fn running_max_follows_the_batch() {
    let maxes = running_max(&vec![3, 1, 4, 1, 5, 9, 2, 6], |a, b| a > b);
    assert_eq!(maxes, vec![3, 3, 4, 4, 5, 9, 9, 9]);
    assert_eq!(running_max(&vec![7], |a, b| a > b), vec![7]);
    assert!(running_max(&Vec::<i32>::new(), |a, b| a > b).is_empty());
    // the order is the caller's: with it turned round the running minimum comes out
    assert_eq!(running_max(&vec![3, 1, 4, 1], |a, b| a < b), vec![3, 1, 1, 1]);
}

#[test]
fn accept_tests_each_candidate_against_its_own_maximum() {
    let proxies = vec![1.0f32, 100.0, 1.0, 2.0, 3.0];
    let maxes = running_max(&proxies, |a, b| a > b);
    assert_eq!(maxes, vec![1.0, 100.0, 100.0, 100.0, 100.0]);
    // the first is its own maximum; after the peak only a fiftieth of it passes
    assert_eq!(
        accept(&proxies, &maxes, |p, m| p / m >= 0.02),
        vec![true, true, false, true, true]
    );
    assert!(accept(&Vec::<f32>::new(), &Vec::new(), |p, m| p / m >= 0.02).is_empty());
}
