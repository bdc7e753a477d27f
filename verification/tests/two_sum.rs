use hello_rust::Solution;

#[test]
fn finds_the_pair_at_the_front() {
    assert_eq!(Solution::two_sum(vec![2, 7, 11, 15], 9), vec![0, 1]);
}

#[test]
fn finds_a_pair_further_on() {
    assert_eq!(Solution::two_sum(vec![3, 2, 4], 6), vec![1, 2]);
}

#[test]
fn two_equal_elements_make_a_pair() {
    assert_eq!(Solution::two_sum(vec![3, 3], 6), vec![0, 1]);
}

#[test]
fn an_element_is_not_paired_with_itself() {
    assert_eq!(Solution::two_sum(vec![3], 6), Vec::<i32>::new());
    assert_eq!(Solution::two_sum(vec![3, 1, 4], 6), Vec::<i32>::new());
}

#[test]
fn no_pair_gives_an_empty_result() {
    assert_eq!(Solution::two_sum(vec![1, 2, 3], 7), Vec::<i32>::new());
    assert_eq!(Solution::two_sum(Vec::new(), 0), Vec::<i32>::new());
}

#[test]
fn the_pair_that_ends_first_wins() {
    // 1 + 8 and 4 + 5 both give 9; the second pair is complete at index 2.
    assert_eq!(Solution::two_sum(vec![1, 4, 5, 8], 9), vec![1, 2]);
}

#[test]
fn the_latest_partner_wins() {
    // Both 2s pair with the 7; the one nearer to it is returned.
    assert_eq!(Solution::two_sum(vec![2, 2, 7], 9), vec![1, 2]);
    assert_eq!(Solution::two_sum(vec![5, 1, 5, 1, 5, 4], 9), vec![4, 5]);
}

#[test]
fn negative_numbers() {
    assert_eq!(Solution::two_sum(vec![-1, -2, -3, -4, -5], -8), vec![2, 4]);
    assert_eq!(Solution::two_sum(vec![-3, 4, 3, 90], 0), vec![0, 2]);
}

#[test]
fn sums_do_not_wrap() {
    // i32::MAX + 1 is not i32::MIN.
    assert_eq!(Solution::two_sum(vec![i32::MAX, 1], i32::MIN), Vec::<i32>::new());
    assert_eq!(Solution::two_sum(vec![1, i32::MAX], i32::MIN), Vec::<i32>::new());
    assert_eq!(Solution::two_sum(vec![i32::MIN, -1], i32::MAX), Vec::<i32>::new());
    assert_eq!(Solution::two_sum(vec![i32::MAX, 0], i32::MAX), vec![0, 1]);
    assert_eq!(Solution::two_sum(vec![i32::MIN, 0], i32::MIN), vec![0, 1]);
    assert_eq!(Solution::two_sum(vec![i32::MAX, i32::MIN], -1), vec![0, 1]);
}

#[test]
fn the_result_is_a_pair_in_order() {
    let nums = vec![8, 1, 6, 3, 7, 2, 9, 4];
    for target in 0..20 {
        let found = Solution::two_sum(nums.clone(), target);
        let mut best: Vec<i32> = Vec::new();
        'scan: for b in 0..nums.len() {
            for a in (0..b).rev() {
                if nums[a] + nums[b] == target {
                    best = vec![a as i32, b as i32];
                    break 'scan;
                }
            }
        }
        assert_eq!(found, best);
    }
}
