pub mod budget_move;
pub mod budget_values;
pub mod chips;
pub mod decimal;
pub mod filters;
pub mod forms;
pub mod labels;
pub mod layout;
pub mod new_records;
pub mod order;
pub mod progress;
pub mod queue;
pub mod queue_run;
pub mod queue_text;
pub mod records;
pub mod reorder;
pub mod rule_bulk;
pub mod save;
pub mod snapshot;
pub mod special;
pub mod summaries;
pub mod text;
