pub mod type_management;
