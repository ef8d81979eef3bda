use repeated_photos::config::{Config, ConfigurationError, DEFAULT_MAX_WORKERS, DEFAULT_THRESHOLD};
use repeated_photos::normalize::DEFAULT_CANVAS_SIZE;

#[test]
fn default_configuration() {
    let config = Config::default();
    assert_eq!(config.max_workers(), 10);
    assert_eq!(config.threshold(), 10);
    assert_eq!(config.canvas_size(), 64);
    assert_eq!(config.extensions(), &vec!["jpg", "jpeg", "png", "gif", "bmp", "tiff"]);
    assert_eq!(DEFAULT_MAX_WORKERS, 10);
    assert_eq!(DEFAULT_THRESHOLD, 10);
    assert_eq!(DEFAULT_CANVAS_SIZE, 64);
}

#[test]
fn valid_configuration_is_kept() {
    let config = Config::new(4, 0, 32).unwrap();
    assert_eq!(config.max_workers(), 4);
    assert_eq!(config.threshold(), 0);
    assert_eq!(config.canvas_size(), 32);
    assert_eq!(config.extensions(), &vec!["jpg", "jpeg", "png", "gif", "bmp", "tiff"]);
}

#[test]
fn worker_budget_must_be_positive() {
    assert_eq!(Config::new(0, 10, 64).unwrap_err(), ConfigurationError::WorkerBudget);
    assert_eq!(Config::new(-3, 10, 64).unwrap_err(), ConfigurationError::WorkerBudget);
    assert_eq!(Config::new(i64::MIN, 10, 64).unwrap_err(), ConfigurationError::WorkerBudget);
    assert!(Config::new(1, 10, 64).is_ok());
}

#[test]
fn threshold_must_not_be_negative() {
    assert_eq!(Config::new(10, -1, 64).unwrap_err(), ConfigurationError::Threshold);
    assert_eq!(Config::new(10, i64::MIN, 64).unwrap_err(), ConfigurationError::Threshold);
    assert_eq!(Config::new(10, 1 << 32, 64).unwrap_err(), ConfigurationError::Threshold);
    assert!(Config::new(10, 0, 64).is_ok());
    assert_eq!(Config::new(10, u32::MAX as i64, 64).unwrap().threshold(), u32::MAX);
}

#[test]
fn canvas_size_must_be_positive() {
    assert_eq!(Config::new(10, 10, 0).unwrap_err(), ConfigurationError::CanvasSize);
    assert_eq!(Config::new(10, 10, -64).unwrap_err(), ConfigurationError::CanvasSize);
    assert_eq!(Config::new(10, 10, 1 << 32).unwrap_err(), ConfigurationError::CanvasSize);
    assert!(Config::new(10, 10, 1).is_ok());
}

#[test]
fn canvas_must_fit_in_one_buffer() {
    let largest = (isize::MAX as f64).sqrt() as i64;
    if largest < u32::MAX as i64 {
        assert!(Config::new(10, 10, largest - 1).is_ok());
        assert_eq!(Config::new(10, 10, largest + 2).unwrap_err(), ConfigurationError::CanvasSize);
    }
}

#[test]
fn first_fault_wins() {
    assert_eq!(Config::new(0, -1, 0).unwrap_err(), ConfigurationError::WorkerBudget);
    assert_eq!(Config::new(1, -1, 0).unwrap_err(), ConfigurationError::Threshold);
    assert_eq!(Config::new(1, 1, 0).unwrap_err(), ConfigurationError::CanvasSize);
}

#[test]
fn extensions_can_be_replaced() {
    let config = Config::new(2, 5, 16).unwrap().with_extensions(vec!["webp".to_string()]);
    assert_eq!(config.extensions(), &vec!["webp"]);
    assert_eq!(config.max_workers(), 2);
    assert_eq!(config.threshold(), 5);
    assert_eq!(config.canvas_size(), 16);
}
