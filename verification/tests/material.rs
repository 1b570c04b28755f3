use pathtracer::material::{first_step, next_step, Gate, Lobe, Step};

fn decide(emission: bool, metallic: bool, specular: bool, transmission: bool) -> (Lobe, u32) {
    let mut step = first_step();
    let mut draws: u32 = 0;
    loop {
        match step {
            Step::Take(lobe) => return (lobe, draws),
            Step::Draw(gate) => {
                let passed = match gate {
                    Gate::Emission => emission,
                    Gate::Metallic => metallic,
                    Gate::Specular => specular,
                    Gate::Transmission => transmission,
                };
                draws += 1;
                step = next_step(gate, passed);
            }
        }
    }
}

#[test]
fn first_step_draws_for_emission() {
    assert_eq!(first_step(), Step::Draw(Gate::Emission));
}

#[test]
fn next_step_follows_the_gate_order() {
    assert_eq!(next_step(Gate::Emission, true), Step::Take(Lobe::Emissive));
    assert_eq!(next_step(Gate::Emission, false), Step::Draw(Gate::Metallic));
    assert_eq!(next_step(Gate::Metallic, true), Step::Take(Lobe::Metallic));
    assert_eq!(next_step(Gate::Metallic, false), Step::Draw(Gate::Specular));
    assert_eq!(next_step(Gate::Specular, true), Step::Draw(Gate::Transmission));
    assert_eq!(next_step(Gate::Specular, false), Step::Take(Lobe::Diffuse));
    assert_eq!(next_step(Gate::Transmission, true), Step::Take(Lobe::Refractive));
    assert_eq!(next_step(Gate::Transmission, false), Step::Take(Lobe::Specular));
}

#[test]
fn emission_wins_over_every_later_gate() {
    for bits in 0u32..8 {
        let (lobe, draws) = decide(true, bits & 1 != 0, bits & 2 != 0, bits & 4 != 0);
        assert_eq!(lobe, Lobe::Emissive);
        assert_eq!(draws, 1);
    }
}

#[test]
fn metallic_wins_once_emission_fails() {
    for bits in 0u32..4 {
        let (lobe, draws) = decide(false, true, bits & 1 != 0, bits & 2 != 0);
        assert_eq!(lobe, Lobe::Metallic);
        assert_eq!(draws, 2);
    }
}

#[test]
fn specular_gate_splits_into_refraction_and_reflection() {
    assert_eq!(decide(false, false, true, true), (Lobe::Refractive, 4));
    assert_eq!(decide(false, false, true, false), (Lobe::Specular, 4));
}

#[test]
fn diffuse_is_what_is_left() {
    assert_eq!(decide(false, false, false, false), (Lobe::Diffuse, 3));
    assert_eq!(decide(false, false, false, true), (Lobe::Diffuse, 3));
}

#[test]
fn every_outcome_decides_within_four_draws() {
    for bits in 0u32..16 {
        let (_, draws) = decide(bits & 1 != 0, bits & 2 != 0, bits & 4 != 0, bits & 8 != 0);
        assert!(draws >= 1 && draws <= 4);
    }
}
