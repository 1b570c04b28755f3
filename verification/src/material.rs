//! How a surface interaction picks its behaviour.
//!
//! A material is a stack of behaviours, each guarded by a probability gate.
//! The gates are tried one after the other, each with a uniform draw of its
//! own, and the first one that passes decides. The gates are deliberately not
//! normalised into one distribution: when their probabilities add up to more
//! than one, the later behaviours are simply reached less often.

use vstd::prelude::*;

verus! {

/// What a surface does to a path that hits it.
#[derive(Debug, Clone, Copy, PartialEq, Eq, Structural)]
pub enum Lobe {
    /// The path ends and takes the colour of the surface.
    Emissive,
    /// A reflection tinted by the surface.
    Metallic,
    /// Transmission through the surface.
    Refractive,
    /// An untinted reflection.
    Specular,
    /// Scattering about the normal.
    Diffuse,
}

/// A probability gate. A gate passes when a uniform draw from `[0, 1)` falls
/// below its threshold.
#[derive(Debug, Clone, Copy, PartialEq, Eq, Structural)]
pub enum Gate {
    /// Threshold: the emission of the material.
    Emission,
    /// Threshold: how metallic the material is.
    Metallic,
    /// Threshold: the amount of dielectric reflection.
    Specular,
    /// Threshold: the share of light that is not reflected, times the
    /// transparency of the material.
    Transmission,
}

/// What to do next while picking a behaviour.
#[derive(Debug, Clone, Copy, PartialEq, Eq, Structural)]
pub enum Step {
    /// Make a fresh draw and test it against this gate.
    Draw(Gate),
    /// The behaviour is decided.
    Take(Lobe),
}

/// The behaviour picked when the gates come out as given. Later gates only
/// matter where every earlier one has failed, and the transmission gate only
/// where the specular gate has passed.
pub open spec fn lobe_of(emission: bool, metallic: bool, specular: bool, transmission: bool) -> Lobe {
    if emission {
        Lobe::Emissive
    } else if metallic {
        Lobe::Metallic
    } else if specular {
        if transmission {
            Lobe::Refractive
        } else {
            Lobe::Specular
        }
    } else {
        Lobe::Diffuse
    }
}

/// The step that follows the outcome of `gate`.
pub open spec fn step_after(gate: Gate, passed: bool) -> Step {
    match gate {
        Gate::Emission => if passed {
            Step::Take(Lobe::Emissive)
        } else {
            Step::Draw(Gate::Metallic)
        },
        Gate::Metallic => if passed {
            Step::Take(Lobe::Metallic)
        } else {
            Step::Draw(Gate::Specular)
        },
        Gate::Specular => if passed {
            Step::Draw(Gate::Transmission)
        } else {
            Step::Take(Lobe::Diffuse)
        },
        Gate::Transmission => if passed {
            Step::Take(Lobe::Refractive)
        } else {
            Step::Take(Lobe::Specular)
        },
    }
}

/// The outcome that a gate would have among the four given.
pub open spec fn outcome_of(
    gate: Gate,
    emission: bool,
    metallic: bool,
    specular: bool,
    transmission: bool,
) -> bool {
    match gate {
        Gate::Emission => emission,
        Gate::Metallic => metallic,
        Gate::Specular => specular,
        Gate::Transmission => transmission,
    }
}

/// Where the walk through the gates ends when it stands at `step`, has at
/// most `fuel` draws left and the gates come out as given.
pub open spec fn walk(
    step: Step,
    fuel: nat,
    emission: bool,
    metallic: bool,
    specular: bool,
    transmission: bool,
) -> Step
    decreases fuel,
{
    match step {
        Step::Take(_) => step,
        Step::Draw(gate) => if fuel == 0 {
            step
        } else {
            walk(
                step_after(gate, outcome_of(gate, emission, metallic, specular, transmission)),
                (fuel - 1) as nat,
                emission,
                metallic,
                specular,
                transmission,
            )
        },
    }
}

/// The step that the walk through the gates begins with.
pub fn first_step() -> (step: Step)
    ensures
        step == Step::Draw(Gate::Emission),
{
    Step::Draw(Gate::Emission)
}

/// Moves on from `gate`, given whether its draw passed.
pub fn next_step(gate: Gate, passed: bool) -> (step: Step)
    ensures
        step == step_after(gate, passed),
{
    match gate {
        Gate::Emission => if passed {
            Step::Take(Lobe::Emissive)
        } else {
            Step::Draw(Gate::Metallic)
        },
        Gate::Metallic => if passed {
            Step::Take(Lobe::Metallic)
        } else {
            Step::Draw(Gate::Specular)
        },
        Gate::Specular => if passed {
            Step::Draw(Gate::Transmission)
        } else {
            Step::Take(Lobe::Diffuse)
        },
        Gate::Transmission => if passed {
            Step::Take(Lobe::Refractive)
        } else {
            Step::Take(Lobe::Specular)
        },
    }
}

/// Walking the gates from the first one decides within four draws, and
/// decides for the behaviour that the outcomes of the gates select.
pub proof fn lemma_walk_decides(emission: bool, metallic: bool, specular: bool, transmission: bool)
    ensures
        walk(Step::Draw(Gate::Emission), 4, emission, metallic, specular, transmission)
            == Step::Take(lobe_of(emission, metallic, specular, transmission)),
{
    reveal_with_fuel(walk, 5);
}

} // verus!
