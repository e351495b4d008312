use panopaea::forms::{Array2d, Staggered2d};
use panopaea::grid::Grid2d;
use panopaea::manifold::{Hodge0, Hodge1, Hodge2, Laplacian, Manifold2d, NotImplemented};
use panopaea::scalar::{Fp, Scalar, MODULUS};

fn pow_mod(mut base: u64, mut exp: u64) -> u64 {
    let mut acc: u64 = 1;
    base %= MODULUS;
    while exp > 0 {
        if exp & 1 == 1 {
            acc = acc * base % MODULUS;
        }
        base = base * base % MODULUS;
        exp >>= 1;
    }
    acc
}

/// The field element equal to the decimal `x`, given to one decimal place.
fn dec(x: f64) -> Fp {
    let tenths = (x * 10.0).round() as i64;
    let inv_ten = pow_mod(10, MODULUS - 2);
    Fp::new(Fp::from_i64(tenths).value() * inv_ten % MODULUS)
}

fn fp(n: i64) -> Fp {
    Fp::from_i64(n)
}

fn faces_from(grid: &Grid2d, rows: &[[f64; 3]; 3]) -> Array2d<Fp> {
    let mut faces = <Grid2d as Manifold2d<Fp>>::new_simplex_2(grid);
    for (y, row) in rows.iter().enumerate() {
        for (x, v) in row.iter().enumerate() {
            faces.set(y, x, dec(*v));
        }
    }
    faces
}

#[test]
fn grid_2d_divergence() {
    let grid = Grid2d::new((5, 5));
    let mut vel = <Grid2d as Manifold2d<Fp>>::new_simplex_1(&grid);
    let velocities_y = &[
        [0.0, 0.0, 0.0, 0.0, 0.0],
        [0.0, 1.8, 1.8, 0.0, 0.0],
        [0.0, 2.0, 2.0, 0.0, 0.0],
        [0.0, 0.8, 0.8, 0.0, 0.0],
        [0.0, 0.0, 0.0, 0.0, 0.0],
        [0.0, 0.0, 0.0, 0.0, 0.0],
    ];

    let velocities_x = &[
        [0.0, 0.7, 0.0, -0.7, 0.0, 0.0],
        [0.0, 0.1, 0.0, -0.1, 0.0, 0.0],
        [0.0, -0.7, 0.0, 0.7, 0.0, 0.0],
        [0.0, 0.0, 0.0, 0.0, 0.0, 0.0],
        [0.0, 0.0, 0.0, 0.0, 0.0, 0.0],
    ];

    {
        let (vy, vx) = vel.split_mut();
        for (y, row) in velocities_y.iter().enumerate() {
            for (x, v) in row.iter().enumerate() {
                vy[y * 5 + x] = dec(*v);
            }
        }
        for (y, row) in velocities_x.iter().enumerate() {
            for (x, v) in row.iter().enumerate() {
                vx[y * 6 + x] = dec(*v);
            }
        }
    }

    let div_ref = [
        0.7, 1.1, 1.1, 0.7, 0.0,
        0.1, 0.1, 0.1, 0.1, 0.0,
        -0.7, -0.5, -0.5, -0.7, 0.0,
        0.0, -0.8, -0.8, 0.0, 0.0,
        0.0, 0.0, 0.0, 0.0, 0.0,
    ];

    let mut vel_primal = <Grid2d as Manifold2d<Fp>>::new_simplex_1(&grid);
    let mut divergence = <Grid2d as Manifold2d<Fp>>::new_simplex_2(&grid);
    grid.hodge_1_dual(&mut vel_primal, &vel);
    grid.derivative_1_primal(&mut divergence, &vel_primal);

    let expected: Vec<Fp> = div_ref.iter().map(|v| dec(*v)).collect();
    assert_eq!(divergence.as_slice(), &expected[..]);
}

#[test]
fn grid_2d_laplacian() {
    let grid = Grid2d::new((3, 3));

    let faces_primal = faces_from(&grid, &[[-0.0, -3.0, -0.0], [-0.0, 2.0, 6.0], [1.0, -0.0, -0.0]]);

    let mut faces_dual = <Grid2d as Manifold2d<Fp>>::new_simplex_2(&grid);
    let mut edges_dual = <Grid2d as Manifold2d<Fp>>::new_simplex_1(&grid);
    let mut edges_primal = <Grid2d as Manifold2d<Fp>>::new_simplex_1(&grid);
    let mut laplacian = <Grid2d as Manifold2d<Fp>>::new_simplex_2(&grid);

    grid.hodge_2_primal(&mut faces_dual, &faces_primal);
    grid.derivative_0_dual(&mut edges_dual, &faces_dual);
    grid.hodge_1_dual(&mut edges_primal, &edges_dual);
    grid.derivative_1_primal(&mut laplacian, &edges_primal);

    let laplacian_ref = [3.0, -11.0, -3.0, -3.0, 5.0, 16.0, 2.0, -3.0, -6.0];
    let expected: Vec<Fp> = laplacian_ref.iter().map(|v| dec(*v)).collect();
    assert_eq!(laplacian.as_slice(), &expected[..]);
}

#[test]
fn grid_2d_gradient() {
    let grid = Grid2d::new((3, 3));

    let faces_dual = faces_from(&grid, &[[-0.0, -3.0, -0.0], [-0.0, 2.0, 6.0], [1.0, -0.0, -0.0]]);

    let mut gradient = <Grid2d as Manifold2d<Fp>>::new_simplex_1(&grid);

    grid.derivative_0_dual(&mut gradient, &faces_dual);

    let _gradient_ref = [3.0, -11.0, -3.0, -3.0, 5.0, 16.0, 2.0, -3.0, -6.0];
}

#[test]
fn derivative_0_dual_writes_inner_edges_only() {
    let grid = Grid2d::new((3, 3));
    let faces = faces_from(&grid, &[[-0.0, -3.0, -0.0], [-0.0, 2.0, 6.0], [1.0, -0.0, -0.0]]);
    let mut edges = <Grid2d as Manifold2d<Fp>>::new_simplex_1(&grid);
    {
        let (v, h) = edges.split_mut();
        for e in v.iter_mut() {
            *e = fp(9);
        }
        for e in h.iter_mut() {
            *e = fp(9);
        }
    }
    grid.derivative_0_dual(&mut edges, &faces);
    let (v, h) = edges.split();
    // vertical block, 4 rows of 3: outer rows untouched, row r is -(f[r] - f[r-1])
    assert_eq!(&v[0..3], &[fp(9), fp(9), fp(9)]);
    assert_eq!(&v[3..6], &[fp(0), fp(-5), fp(-6)]);
    assert_eq!(&v[6..9], &[fp(-1), fp(2), fp(6)]);
    assert_eq!(&v[9..12], &[fp(9), fp(9), fp(9)]);
    // horizontal block, 3 rows of 4: outer columns untouched, column c is f[c-1] - f[c]
    assert_eq!(&h[0..4], &[fp(9), fp(3), fp(-3), fp(9)]);
    assert_eq!(&h[4..8], &[fp(9), fp(-2), fp(-4), fp(9)]);
    assert_eq!(&h[8..12], &[fp(9), fp(1), fp(0), fp(9)]);
}

#[test]
fn derivative_0_primal_differences() {
    let grid = Grid2d::new((1, 2));
    // vertices, 2 rows of 3
    let vertices = Array2d::from_vec(2, 3, vec![fp(1), fp(4), fp(9), fp(16), fp(25), fp(36)]).unwrap();
    let mut edges = <Grid2d as Manifold2d<Fp>>::new_simplex_1(&grid);
    grid.derivative_0_primal(&mut edges, &vertices);
    // vertical block: right - left per row; horizontal block: below - above
    assert_eq!(edges.view_linear(), &[fp(3), fp(5), fp(9), fp(11), fp(15), fp(21), fp(27)]);
}

#[test]
fn derivative_1_primal_face_sum() {
    let grid = Grid2d::new((1, 1));
    let mut edges = <Grid2d as Manifold2d<Fp>>::new_simplex_1(&grid);
    {
        let (v, h) = edges.split_mut();
        v[0] = fp(10); // top
        v[1] = fp(3); // bottom
        h[0] = fp(5); // left
        h[1] = fp(1); // right
    }
    let mut faces = <Grid2d as Manifold2d<Fp>>::new_simplex_2(&grid);
    grid.derivative_1_primal(&mut faces, &edges);
    assert_eq!(faces.get(0, 0), fp(-3 + 10 - 5 + 1));
}

#[test]
fn sizes_of_a_grid() {
    let grid = Grid2d::new((3, 4));
    assert_eq!(grid.dim(), (3, 4));
    assert_eq!(<Grid2d as Manifold2d<Fp>>::num_elem_0(&grid), 20);
    assert_eq!(<Grid2d as Manifold2d<Fp>>::num_elem_1(&grid), 31);
    assert_eq!(<Grid2d as Manifold2d<Fp>>::num_elem_2(&grid), 12);
    let e = <Grid2d as Manifold2d<Fp>>::new_simplex_1(&grid);
    assert_eq!(e.dim(), (3, 4));
    assert_eq!(e.len(), 31);
    let (v, h) = e.split();
    assert_eq!(v.len(), 16);
    assert_eq!(h.len(), 15);
    let v0 = <Grid2d as Manifold2d<Fp>>::new_simplex_0(&grid);
    assert_eq!((v0.rows(), v0.cols()), (4, 5));
    assert!(v0.as_slice().iter().all(|x| *x == Fp::zero()));
    let f = <Grid2d as Manifold2d<Fp>>::new_simplex_2(&grid);
    assert_eq!((f.rows(), f.cols()), (3, 4));
}

#[test]
fn hodge0_boundary_weights() {
    let grid = Grid2d::new((3, 4));
    let ones = Array2d::from_elem(4, 5, Fp::one());
    let mut dual = <Grid2d as Manifold2d<Fp>>::new_simplex_0(&grid);
    Hodge0::apply(&grid, &mut dual, &ones);
    let half = Fp::one().half();
    let quarter = half.half();
    let s = dual.as_slice();
    assert_eq!(s.iter().filter(|x| **x == quarter).count(), 4);
    assert_eq!(s.iter().filter(|x| **x == half).count(), 2 * (3 - 1) + 2 * (4 - 1));
    assert_eq!(s.iter().filter(|x| **x == Fp::one()).count(), (3 - 1) * (4 - 1));
    assert_eq!(dual.get(0, 0), quarter);
    assert_eq!(dual.get(3, 4), quarter);
    assert_eq!(dual.get(0, 4), quarter);
    assert_eq!(dual.get(3, 0), quarter);
    assert_eq!(dual.get(0, 2), half);
    assert_eq!(dual.get(2, 0), half);
    assert_eq!(dual.get(1, 1), Fp::one());
    // four quarters make one
    assert_eq!(quarter.add(quarter).add(quarter).add(quarter), Fp::one());
}

#[test]
fn hodge_round_trip_is_exact() {
    let grid = Grid2d::new((2, 3));
    let vals: Vec<Fp> = (0..12).map(|i| fp(7 * i - 20)).collect();
    let x = Array2d::from_vec(3, 4, vals.clone()).unwrap();
    let mut dual = <Grid2d as Manifold2d<Fp>>::new_simplex_0(&grid);
    let mut back = <Grid2d as Manifold2d<Fp>>::new_simplex_0(&grid);
    grid.hodge_0_primal(&mut dual, &x);
    assert_ne!(dual.as_slice(), &vals[..]);
    Hodge0::apply_inv(&grid, &mut back, &dual);
    assert_eq!(back.as_slice(), &vals[..]);
    grid.hodge_0_dual(&mut dual, &x);
    Hodge0::apply(&grid, &mut back, &dual);
    assert_eq!(back.as_slice(), &vals[..]);

    let f = Array2d::from_vec(2, 3, vals[..6].to_vec()).unwrap();
    let mut fd = <Grid2d as Manifold2d<Fp>>::new_simplex_2(&grid);
    let mut fb = <Grid2d as Manifold2d<Fp>>::new_simplex_2(&grid);
    Hodge2::apply(&grid, &mut fd, &f);
    grid.hodge_2_dual(&mut fb, &fd);
    assert_eq!(fb.as_slice(), &vals[..6]);
}

#[test]
fn hodge1_signs() {
    let grid = Grid2d::new((1, 1));
    let mut x = <Grid2d as Manifold2d<Fp>>::new_simplex_1(&grid);
    {
        let (v, h) = x.split_mut();
        v.copy_from_slice(&[fp(1), fp(2)]);
        h.copy_from_slice(&[fp(3), fp(4)]);
    }
    let mut d = <Grid2d as Manifold2d<Fp>>::new_simplex_1(&grid);
    grid.hodge_1_primal(&mut d, &x);
    assert_eq!(d.view_linear(), &[fp(1), fp(2), fp(-3), fp(-4)]);
    let mut p = <Grid2d as Manifold2d<Fp>>::new_simplex_1(&grid);
    Hodge1::apply_inv(&grid, &mut p, &x);
    assert_eq!(p.view_linear(), &[fp(-1), fp(-2), fp(3), fp(4)]);
    // the two stars compose to negation
    let mut back = <Grid2d as Manifold2d<Fp>>::new_simplex_1(&grid);
    Hodge1::apply_inv(&grid, &mut back, &d);
    assert_eq!(back.view_linear(), &[fp(-1), fp(-2), fp(-3), fp(-4)]);
}

#[test]
fn operators_are_linear() {
    let grid = Grid2d::new((2, 2));
    let (a, b) = (fp(3), fp(-5));
    let xs: Vec<Fp> = (0..9).map(|i| fp(i * i - 4)).collect();
    let ys: Vec<Fp> = (0..9).map(|i| fp(11 - 2 * i)).collect();
    let zs: Vec<Fp> = xs.iter().zip(ys.iter()).map(|(x, y)| a.mul(*x).add(b.mul(*y))).collect();
    let run = |v: &Vec<Fp>| {
        let vertices = Array2d::from_vec(3, 3, v.clone()).unwrap();
        let mut edges = <Grid2d as Manifold2d<Fp>>::new_simplex_1(&grid);
        grid.derivative_0_primal(&mut edges, &vertices);
        let mut dual = <Grid2d as Manifold2d<Fp>>::new_simplex_0(&grid);
        grid.hodge_0_primal(&mut dual, &vertices);
        (edges.view_linear().to_vec(), dual.as_slice().to_vec())
    };
    let (ex, dx) = run(&xs);
    let (ey, dy) = run(&ys);
    let (ez, dz) = run(&zs);
    let lin = |p: &Vec<Fp>, q: &Vec<Fp>| -> Vec<Fp> {
        p.iter().zip(q.iter()).map(|(x, y)| a.mul(*x).add(b.mul(*y))).collect()
    };
    assert_eq!(ez, lin(&ex, &ey));
    assert_eq!(dz, lin(&dx, &dy));
}

#[test]
fn unimplemented_paths_signal() {
    let grid = Grid2d::new((2, 2));
    let edges = <Grid2d as Manifold2d<Fp>>::new_simplex_1(&grid);
    let mut vertices = Array2d::from_elem(3, 3, fp(5));
    assert_eq!(grid.derivative_1_dual(&mut vertices, &edges), Err(NotImplemented));
    assert!(vertices.as_slice().iter().all(|x| *x == fp(5)));
    let m = &grid as &dyn Manifold2d<Fp>;
    assert!(matches!(m.derivative_0_primal_matrix(), Err(NotImplemented)));
    assert!(matches!(m.derivative_0_dual_matrix(), Err(NotImplemented)));
    assert!(matches!(m.derivative_1_primal_matrix(), Err(NotImplemented)));
    assert!(matches!(m.derivative_1_dual_matrix(), Err(NotImplemented)));
    assert!(matches!(m.hodge_0_primal_matrix(), Err(NotImplemented)));
    assert!(matches!(m.hodge_1_primal_matrix(), Err(NotImplemented)));
    assert!(matches!(m.hodge_2_primal_matrix(), Err(NotImplemented)));
    assert!(matches!(m.hodge_0_dual_matrix(), Err(NotImplemented)));
    assert!(matches!(m.hodge_1_dual_matrix(), Err(NotImplemented)));
    assert!(matches!(m.hodge_2_dual_matrix(), Err(NotImplemented)));
}

#[test]
fn array_from_vec_checks_length() {
    assert!(Array2d::from_vec(2, 3, vec![fp(0); 5]).is_none());
    assert!(Array2d::from_vec(2, 3, vec![fp(0); 7]).is_none());
    let a = Array2d::from_vec(2, 3, (0..6).map(fp).collect()).unwrap();
    assert_eq!(a.get(1, 2), fp(5));
    assert!(Array2d::<Fp>::from_vec(0, 3, vec![]).is_some());
    let s = Staggered2d::from_elem((1, 1), fp(2));
    assert_eq!(s.view_linear(), &[fp(2); 4]);
}

#[test]
fn field_arithmetic() {
    assert_eq!(fp(-1).value(), MODULUS - 1);
    assert_eq!(Fp::new(MODULUS + 3), fp(3));
    assert_eq!(fp(7).sub(fp(10)), fp(-3));
    assert_eq!(fp(6).mul(fp(-7)), fp(-42));
    assert_eq!(fp(5).neg(), fp(-5));
    assert_eq!(fp(0).neg(), fp(0));
    assert_eq!(fp(8).half(), fp(4));
    assert_eq!(fp(1).half().add(fp(1).half()), fp(1));
    assert_eq!(dec(0.5), fp(1).half());
}

#[test]
fn linear_view_writes_through() {
    let grid = Grid2d::new((1, 2));
    let mut e = <Grid2d as Manifold2d<Fp>>::new_simplex_1(&grid);
    {
        let all = e.view_linear_mut();
        assert_eq!(all.len(), 7);
        all[4] = fp(8);
    }
    let (v, h) = e.split();
    assert_eq!(v, &[fp(0), fp(0), fp(0), fp(0)]);
    assert_eq!(h, &[fp(8), fp(0), fp(0)]);
    let lap: Laplacian<Fp, Grid2d> = Laplacian::new(&grid);
    assert_eq!(lap.manifold.dim(), (1, 2));
}
