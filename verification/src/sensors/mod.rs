pub mod ground_truth;
