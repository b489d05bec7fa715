use vstd::prelude::*;

verus! {

/// A width-to-height ratio, `width : height = num : den`.
#[derive(Clone, Copy, Debug, PartialEq, Eq, Structural)]
pub struct Ratio {
    pub num: u32,
    pub den: u32,
}

/// `v * num / den`, rounded down and held to `u32`.
pub open spec fn scale_u32(v: int, num: int, den: int) -> int {
    let s = v * num / den;
    if s > u32::MAX {
        u32::MAX as int
    } else {
        s
    }
}

fn scale_exec(v: u32, num: u32, den: u32) -> (r: u32)
    requires
        den > 0,
    ensures
        r == scale_u32(v as int, num as int, den as int),
{
    proof {
        assert(v * num <= u32::MAX * u32::MAX) by (nonlinear_arith)
            requires
                v <= u32::MAX,
                num <= u32::MAX,
        ;
    }
    let s = (v as u64) * (num as u64) / (den as u64);
    if s > (u32::MAX as u64) {
        u32::MAX
    } else {
        s as u32
    }
}

impl Ratio {
    pub open spec fn wf(&self) -> bool {
        self.num > 0 && self.den > 0
    }

    /// The width that goes with `height`.
    pub open spec fn width_for(&self, height: int) -> int {
        scale_u32(height, self.num as int, self.den as int)
    }

    /// The height that goes with `width`.
    pub open spec fn height_for(&self, width: int) -> int {
        scale_u32(width, self.den as int, self.num as int)
    }
}

/// How a pair of sizes is found: both given, or one given with a ratio.
#[derive(Clone, Copy, Debug, PartialEq, Eq, Structural)]
pub enum AspectCalc {
    /// Both sizes given.
    Ratio { width: u32, height: u32 },
    /// The width follows from the height.
    Width { height: u32, ratio: Ratio },
    /// The height follows from the width.
    Height { width: u32, ratio: Ratio },
}

impl AspectCalc {
    pub open spec fn wf(&self) -> bool {
        match self {
            AspectCalc::Ratio { .. } => true,
            AspectCalc::Width { ratio, .. } => ratio.wf(),
            AspectCalc::Height { ratio, .. } => ratio.wf(),
        }
    }

    pub open spec fn size_spec(&self) -> (int, int) {
        match self {
            AspectCalc::Ratio { width, height } => (*width as int, *height as int),
            AspectCalc::Width { height, ratio } => (ratio.width_for(*height as int), *height as int),
            AspectCalc::Height { width, ratio } => (*width as int, ratio.height_for(*width as int)),
        }
    }

    /// The width and height.
    pub fn size(&self) -> (r: (u32, u32))
        requires
            self.wf(),
        ensures
            (r.0 as int, r.1 as int) == self.size_spec(),
    {
        match self {
            AspectCalc::Ratio { width, height } => (*width, *height),
            AspectCalc::Width { height, ratio } => (scale_exec(*height, ratio.num, ratio.den), *height),
            AspectCalc::Height { width, ratio } => (*width, scale_exec(*width, ratio.den, ratio.num)),
        }
    }
}

/// The policy that sizes a chart.
#[derive(Clone, Copy, Debug, PartialEq, Eq, Structural)]
pub enum AspectRatio {
    /// Sizes the whole chart, decorations included.
    Outer(AspectCalc),
    /// Sizes the plot area; the chart grows by its decorations.
    Inner(AspectCalc),
    /// Takes the size of the chart's container.
    Environment,
    /// Takes the container's height and the width that goes with it.
    EnvironmentWidth(Ratio),
    /// Takes the container's width and the height that goes with it.
    EnvironmentHeight(Ratio),
}

/// Sizes resolved from a policy: those of the whole chart or those of its
/// plot area.
#[derive(Clone, Copy, Debug, PartialEq, Eq, Structural)]
pub enum KnownAspectRatio {
    Outer { width: u32, height: u32 },
    Inner { width: u32, height: u32 },
}

impl AspectRatio {
    pub fn outer(width: u32, height: u32) -> (r: AspectRatio)
        ensures
            r == AspectRatio::Outer(AspectCalc::Ratio { width, height }),
    {
        AspectRatio::Outer(AspectCalc::Ratio { width, height })
    }

    pub fn outer_width(height: u32, ratio: Ratio) -> (r: AspectRatio)
        ensures
            r == AspectRatio::Outer(AspectCalc::Width { height, ratio }),
    {
        AspectRatio::Outer(AspectCalc::Width { height, ratio })
    }

    pub fn outer_height(width: u32, ratio: Ratio) -> (r: AspectRatio)
        ensures
            r == AspectRatio::Outer(AspectCalc::Height { width, ratio }),
    {
        AspectRatio::Outer(AspectCalc::Height { width, ratio })
    }

    pub fn inner(width: u32, height: u32) -> (r: AspectRatio)
        ensures
            r == AspectRatio::Inner(AspectCalc::Ratio { width, height }),
    {
        AspectRatio::Inner(AspectCalc::Ratio { width, height })
    }

    pub fn inner_width(height: u32, ratio: Ratio) -> (r: AspectRatio)
        ensures
            r == AspectRatio::Inner(AspectCalc::Width { height, ratio }),
    {
        AspectRatio::Inner(AspectCalc::Width { height, ratio })
    }

    pub fn inner_height(width: u32, ratio: Ratio) -> (r: AspectRatio)
        ensures
            r == AspectRatio::Inner(AspectCalc::Height { width, ratio }),
    {
        AspectRatio::Inner(AspectCalc::Height { width, ratio })
    }

    pub open spec fn wf(&self) -> bool {
        match self {
            AspectRatio::Outer(c) => c.wf(),
            AspectRatio::Inner(c) => c.wf(),
            AspectRatio::Environment => true,
            AspectRatio::EnvironmentWidth(r) => r.wf(),
            AspectRatio::EnvironmentHeight(r) => r.wf(),
        }
    }

    /// What `known` resolves to once the container measured `(w, h)`.
    pub open spec fn known_spec(&self, w: int, h: int) -> (bool, int, int) {
        match self {
            AspectRatio::Outer(c) => (false, c.size_spec().0, c.size_spec().1),
            AspectRatio::Inner(c) => (true, c.size_spec().0, c.size_spec().1),
            AspectRatio::Environment => (false, w, h),
            AspectRatio::EnvironmentWidth(r) => (false, r.width_for(h), h),
            AspectRatio::EnvironmentHeight(r) => (false, w, r.height_for(w)),
        }
    }

    /// Resolves the policy against the container's measured size. Before the
    /// container has been measured (`None`) nothing is known yet.
    pub fn known(&self, container: Option<(u32, u32)>) -> (r: Option<KnownAspectRatio>)
        requires
            self.wf(),
        ensures
            container.is_none() ==> r.is_none(),
            container.is_some() ==> r.is_some() && ({
                let (w, h) = container.unwrap();
                let (is_inner, kw, kh) = self.known_spec(w as int, h as int);
                r.unwrap() == if is_inner {
                    KnownAspectRatio::Inner { width: kw as u32, height: kh as u32 }
                } else {
                    KnownAspectRatio::Outer { width: kw as u32, height: kh as u32 }
                }
            }),
    {
        let (w, h) = match container {
            Some(c) => c,
            None => return None,
        };
        let known = match self {
            AspectRatio::Outer(c) => {
                let (kw, kh) = c.size();
                KnownAspectRatio::Outer { width: kw, height: kh }
            },
            AspectRatio::Inner(c) => {
                let (kw, kh) = c.size();
                KnownAspectRatio::Inner { width: kw, height: kh }
            },
            AspectRatio::Environment => KnownAspectRatio::Outer { width: w, height: h },
            AspectRatio::EnvironmentWidth(r) => KnownAspectRatio::Outer {
                width: scale_exec(h, r.num, r.den),
                height: h,
            },
            AspectRatio::EnvironmentHeight(r) => KnownAspectRatio::Outer {
                width: w,
                height: scale_exec(w, r.den, r.num),
            },
        };
        Some(known)
    }
}

} // verus!
