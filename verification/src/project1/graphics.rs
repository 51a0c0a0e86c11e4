use vstd::prelude::*;

verus! {

/// Whether the user may pan and zoom the canvas.
#[derive(Debug)]
pub struct ViewportConfig {
    pub is_pannable: bool,
    pub is_zoomable: bool,
}

impl Default for ViewportConfig {
    fn default() -> (r: Self)
        ensures
            r.is_pannable,
            r.is_zoomable,
    {
        Self { is_pannable: true, is_zoomable: true }
    }
}

/// The bounds and the center of the visible part of the canvas, in some unit.
#[derive(Debug, Default, Clone, Copy)]
pub struct ViewportBounds<Unit> {
    pub minimum_x: Unit,
    pub maximum_x: Unit,
    pub minimum_y: Unit,
    pub maximum_y: Unit,
    pub center_x: Unit,
    pub center_y: Unit,
}

/// The coordinates `min..=max` at which the grid draws a line: the multiples of `unit`, but
/// `skip` (the axis, when the axes are drawn), in increasing order.
pub open spec fn grid_positions_spec(min: int, max: int, unit: int, skip: Option<int>) -> Seq<int>
    decreases max - min + 1,
{
    if max < min {
        Seq::empty()
    } else {
        let rest = grid_positions_spec(min, max - 1, unit, skip);
        if skip != Some(max) && max % unit == 0 {
            rest.push(max)
        } else {
            rest
        }
    }
}

/// The absolute value.
pub open spec fn abs(x: int) -> int {
    if x < 0 {
        -x
    } else {
        x
    }
}

/// `u` divides `x` exactly when `|u|` divides `|x|`.
proof fn lemma_divisible_abs(x: int, u: int)
    requires
        u != 0,
    ensures
        (x % u == 0) == (abs(x) % abs(u) == 0),
{
    let a = abs(x);
    let b = abs(u);
    vstd::arithmetic::div_mod::lemma_fundamental_div_mod(x, u);
    vstd::arithmetic::div_mod::lemma_fundamental_div_mod(a, b);
    if x % u == 0 {
        let q = x / u;
        assert(a == b * abs(q)) by (nonlinear_arith)
            requires
                x == u * q,
                a == abs(x),
                b == abs(u),
        ;
        vstd::arithmetic::div_mod::lemma_mod_multiples_basic(abs(q), b);
        assert(abs(q) * b == b * abs(q)) by (nonlinear_arith);
    }
    if a % b == 0 {
        let k = a / b;
        let q = if (x < 0) == (u < 0) {
            k
        } else {
            -k
        };
        assert(x == q * u) by (nonlinear_arith)
            requires
                a == b * k,
                a == abs(x),
                b == abs(u),
                q == (if (x < 0) == (u < 0) {
                    k
                } else {
                    -k
                }),
        ;
        assert((q * u) % u == 0) by (nonlinear_arith)
            requires
                u != 0,
        ;
    }
}

/// The coordinates of `min..=max` at which the grid draws a line (see `grid_positions_spec`).
pub fn grid_positions(min: i32, max: i32, unit: i32, skip: Option<i32>) -> (r: Vec<i32>)
    requires
        unit != 0,
    ensures
        r@.map_values(|x: i32| x as int) == grid_positions_spec(
            min as int,
            max as int,
            unit as int,
            match skip {
                Some(s) => Some(s as int),
                None => None,
            },
        ),
{
    let ghost skip_int = match skip {
        Some(s) => Some(s as int),
        None => None::<int>,
    };
    let mut r: Vec<i32> = Vec::new();
    if max < min {
        assert(r@.map_values(|x: i32| x as int) =~= grid_positions_spec(min as int, max as int, unit as int, skip_int));
        return r;
    }
    let mut x: i32 = min;
    loop
        invariant
            min <= x <= max,
            unit != 0,
            skip_int == (match skip {
                Some(s) => Some(s as int),
                None => None::<int>,
            }),
            r@.map_values(|v: i32| v as int) == grid_positions_spec(min as int, x - 1, unit as int, skip_int),
        decreases max - x,
    {
        let ax: u32 = if x < 0 {
            (0i64 - x as i64) as u32
        } else {
            x as u32
        };
        let au: u32 = if unit < 0 {
            (0i64 - unit as i64) as u32
        } else {
            unit as u32
        };
        let divisible = ax % au == 0;
        proof {
            lemma_divisible_abs(x as int, unit as int);
        }
        let skipped = match skip {
            Some(s) => s == x,
            None => false,
        };
        let ghost before = r@;
        if !skipped && divisible {
            r.push(x);
            assert(r@.map_values(|v: i32| v as int) =~= before.map_values(|v: i32| v as int).push(x as int));
        }
        assert(divisible == ((x as int) % (unit as int) == 0));
        assert(skipped == (skip_int == Some(x as int)));
        assert(r@.map_values(|v: i32| v as int) =~= grid_positions_spec(min as int, x as int, unit as int, skip_int));
        if x == max {
            return r;
        }
        x = x + 1;
    }
}

} // verus!
