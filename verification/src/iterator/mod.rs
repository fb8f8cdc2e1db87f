pub mod dfs_iterator;
pub mod node_iterator;
pub mod relationship_iterator;
