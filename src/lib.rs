//! Core logic of a small meal-planning and track-notes web service:
//! form validation, the session guard, password hashing and checking,
//! food records scaled by one hundred, prefix search, the track browser
//! and the bulk food importer.

pub mod auth;
pub mod decimal;
pub mod food;
pub mod import;
pub mod session;
pub mod text;
pub mod tracks;

pub use decimal::{parse_i32, parse_scaled};
pub use food::{
    display_amount, like_pattern, plan_food, scale_amount, search_rows, Food, FoodPlan, FoodRow,
    Meal, MealFood, NewFood, SCALE,
};
pub use import::{parse_food_file, parse_row, ImportError, RowProblem};
pub use session::{SessionData, AUTHENTICATED_KEY, AUTHENTICATED_TRUE, USER_ID_KEY};
pub use auth::{
    check_username, login, login_outcome, new_user_with_salt, prepare_sign_up, sign_up_result,
    user_from_hash, LoginOutcome, NewUser, SignUpError, StoreError, User, HOME_PATH, INVALID_LOGIN,
    MAX_PASSWORD_BYTES, MEAL_BUILDER_PATH,
};
pub use tracks::{select_track, track_table, Track};
