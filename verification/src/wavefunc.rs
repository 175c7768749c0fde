use vstd::prelude::*;

verus! {

/// The quantum numbers of a hydrogen-like orbital: principal `n`, azimuthal
/// `l` and magnetic `m`.
#[derive(Debug, Clone, Copy, PartialEq, Eq, Structural)]
pub struct Psi {
    pub n: u32,
    pub l: u32,
    pub m: u32,
}

/// A polynomial factor of the wavefunction: the base polynomial of degree
/// `degree`, differentiated `derivatives` times.
#[derive(Debug, Clone, Copy, PartialEq, Eq, Structural)]
pub struct PolyFactor {
    pub degree: u32,
    pub derivatives: u32,
}

impl Psi {
    /// The numbers name an orbital: `l` is below `n`, and `m` is at most
    /// `l`.
    pub open spec fn wf(&self) -> bool {
        self.l < self.n && self.m <= self.l && self.n + self.l <= u32::MAX
    }

    /// The orbital with the quantum numbers `n`, `l` and `m`.
    pub fn new(n: u32, l: u32, m: u32) -> (psi: Psi)
        requires
            l < n,
            m <= l,
            n + l <= u32::MAX,
        ensures
            psi.wf(),
            psi == (Psi { n, l, m }),
    {
        Psi { n, l, m }
    }

    /// The angular factor: the Legendre polynomial of degree `l`,
    /// differentiated `m` times.
    pub fn angular(&self) -> (factor: PolyFactor)
        requires
            self.wf(),
        ensures
            factor == (PolyFactor { degree: self.l, derivatives: self.m }),
    {
        PolyFactor { degree: self.l, derivatives: self.m }
    }

    /// The radial factor: the Laguerre polynomial of degree `n + l`,
    /// differentiated `2l + 1` times.
    pub fn radial(&self) -> (factor: PolyFactor)
        requires
            self.wf(),
        ensures
            factor.degree == self.n + self.l,
            factor.derivatives == 2 * self.l + 1,
            factor.degree - factor.derivatives == self.n - self.l - 1,
    {
        let p = 2 * self.l + 1;
        let q = self.n - self.l - 1;
        PolyFactor { degree: p + q, derivatives: p }
    }
}

impl PolyFactor {
    /// Degree of the factor after differentiation; zero where everything
    /// is differentiated away.
    pub fn remaining_degree(&self) -> (d: u32)
        ensures
            d == (if self.derivatives <= self.degree {
                self.degree - self.derivatives
            } else {
                0
            }),
    {
        if self.derivatives <= self.degree {
            self.degree - self.derivatives
        } else {
            0
        }
    }
}

} // verus!
