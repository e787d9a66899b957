use infrared::protocols::utils::unsigned_abs_sat_sub;

#[test]
fn sampletime() {
    println!("i32::MAX: {}", i32::MAX);

    let tests = [
        // res = t1 - t0
        (0, 0, 0),
        (10, 10, 20), // Wraps
        // Counter wraps around between t0 and t1
        (10, 9, u32::MAX), // Wraps
        (u32::MAX / 2, (i32::MAX - 1) as u32, u32::MAX),
        (i32::MAX as u32, (i32::MAX) as u32, u32::MAX),
        (0, u32::MAX, u32::MAX),
        (u32::MAX, u32::MAX, 0),
    ];

    for &(res, t1, t0) in &tests {
        println!("{} = abs({} - {})", res, t1, t0);
        let r = unsigned_abs_sat_sub(t0, t1);
        assert_eq!(r, res);
    }
}
