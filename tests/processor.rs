use draftsmith_render::processor::{CustomFn, Processor};
use rhai::Engine;

#[test]
fn test_processor_with_custom_functions() {
    // Define test functions
    fn double(x: i64) -> i64 {
        x * 2
    }
    fn concat(a: String, b: String) -> String {
        format!("{}{}", a, b)
    }

    let functions: Vec<CustomFn> = vec![
        Box::new(|engine: &mut Engine| {
            engine.register_fn("double", double);
        }),
        Box::new(|engine: &mut Engine| {
            engine.register_fn("concat", concat);
        }),
    ];

    let mut processor = Processor::new(Some(functions));

    // Test numeric function - note the \n at the end
    let input1 = "Result: λ#(double(21))#";
    let expected1 = "Result: 42"; // New lines are stripped
    let result1 = processor.process(input1);
    assert_eq!(result1, expected1);

    // Test string function
    let input2 = r#"Combined: λ#(concat("Hello ", "World"))#"#;
    let expected2 = "Combined: Hello World"; // New lines are stripped
    let result2 = processor.process(input2);
    assert_eq!(result2, expected2);
}

#[test]
fn test_tabs_processing() {
    let input = r#":::tabs

:::tab
Tab content 1
:::

:::tab
Tab content 2
:::

:::tab
Tab content 3
:::

:::"#;

    let expected_output = r#"<div role="tablist" class="tabs tabs-lifted">

  <input type="radio" name="my_tabs_2" role="tab" class="tab" aria-label="Tab 1"/>
  <div role="tabpanel" class="tab-content bg-base-100 border-base-300 rounded-box p-6">
Tab content 1
  </div>

  <input type="radio" name="my_tabs_2" role="tab" class="tab" aria-label="Tab 2" checked="checked"/>
  <div role="tabpanel" class="tab-content bg-base-100 border-base-300 rounded-box p-6">
Tab content 2
  </div>

  <input type="radio" name="my_tabs_2" role="tab" class="tab" aria-label="Tab 3"/>
  <div role="tabpanel" class="tab-content bg-base-100 border-base-300 rounded-box p-6">
Tab content 3
  </div>
</div>"#;

    let mut processor = Processor::default();
    let result = processor.process(input);

    assert_eq!(
        result.trim(),
        expected_output.trim(),
        "Tabs processing did not produce the expected output"
    );
}

#[test]
fn test_list_tems() {
    let input = r#"
- item 1
    - item 2
        ```python
        print("Under Item 2")
        ```
    - item 3
        ```python
        print("Under Item 3")
        ```
"#;

    let input = input.trim();
    let expected_output = input;
    let mut processor = Processor::default();
    let result = processor.process(input);

    assert_eq!(
        result.trim(),
        expected_output.trim(),
        "List items did not produce the expected output"
    );
}
